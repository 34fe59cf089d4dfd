//! Character-level helpers shared by the lexers, parsers and SQL renderers.
//!
//! Everything here works on the character sequence view of strings
//! (`Seq<char>`), which is how the rest of the library states its contracts.
use vstd::prelude::*;
use vstd::utf8::*;

verus! {

/// ASCII decimal digit.
pub open spec fn is_digit(c: char) -> bool {
    '0' <= c && c <= '9'
}

/// ASCII letter.
pub open spec fn is_alpha(c: char) -> bool {
    ('a' <= c && c <= 'z') || ('A' <= c && c <= 'Z')
}

/// First character of an identifier: `[A-Za-z_]`.
pub open spec fn is_ident_start(c: char) -> bool {
    c == '_' || is_alpha(c)
}

/// Later characters of an identifier: `[A-Za-z0-9_]`.
pub open spec fn is_ident_continue(c: char) -> bool {
    is_ident_start(c) || is_digit(c)
}

/// Characters skipped between tokens: `[ \t\r\n\f]`.
pub open spec fn is_blank(c: char) -> bool {
    c == ' ' || c == '\t' || c == '\r' || c == '\n' || c == '\u{0C}'
}

pub fn digit_char(c: char) -> (r: bool)
    ensures
        r == is_digit(c),
{
    '0' <= c && c <= '9'
}

pub fn ident_start_char(c: char) -> (r: bool)
    ensures
        r == is_ident_start(c),
{
    c == '_' || ('a' <= c && c <= 'z') || ('A' <= c && c <= 'Z')
}

pub fn ident_continue_char(c: char) -> (r: bool)
    ensures
        r == is_ident_continue(c),
{
    ident_start_char(c) || digit_char(c)
}

pub fn blank_char(c: char) -> (r: bool)
    ensures
        r == is_blank(c),
{
    c == ' ' || c == '\t' || c == '\r' || c == '\n' || c == '\u{0C}'
}

/// Number of UTF-8 bytes of a character.
pub open spec fn char_width(c: char) -> nat {
    encode_scalar(c as u32).len()
}

/// Number of UTF-8 bytes of a character sequence.
pub open spec fn byte_len(s: Seq<char>) -> nat {
    encode_utf8(s).len()
}

pub fn utf8_width(c: char) -> (r: usize)
    ensures
        r == char_width(c),
        1 <= r <= 4,
{
    let v = c as u32;
    if v <= 0x7F {
        1
    } else if v <= 0x7FF {
        2
    } else if v <= 0xFFFF {
        3
    } else {
        4
    }
}

pub proof fn lemma_byte_len_append(a: Seq<char>, b: Seq<char>)
    ensures
        byte_len(a + b) == byte_len(a) + byte_len(b),
    decreases a.len(),
{
    if a.len() == 0 {
        assert(a + b =~= b);
    } else {
        lemma_byte_len_append(a.drop_first(), b);
        assert((a + b).drop_first() =~= a.drop_first() + b);
    }
}

pub proof fn lemma_byte_len_push(s: Seq<char>, c: char)
    ensures
        byte_len(s.push(c)) == byte_len(s) + char_width(c),
{
    lemma_byte_len_append(s, seq![c]);
    assert(s + seq![c] =~= s.push(c));
    assert(seq![c].drop_first() =~= Seq::<char>::empty());
    assert(encode_utf8(Seq::<char>::empty()) =~= Seq::<u8>::empty());
    assert(encode_utf8(seq![c]) =~= encode_scalar(c as u32) + encode_utf8(seq![c].drop_first()));
}

/// Identifier characters are ASCII: one byte each.
pub proof fn lemma_byte_len_ident(s: Seq<char>)
    requires
        forall|k: int| 0 <= k < s.len() ==> is_ident_continue(#[trigger] s[k]),
    ensures
        byte_len(s) == s.len(),
    decreases s.len(),
{
    if s.len() > 0 {
        let init = s.drop_last();
        assert forall|k: int| 0 <= k < init.len() implies is_ident_continue(#[trigger] init[k]) by {
            assert(init[k] == s[k]);
        }
        lemma_byte_len_ident(init);
        lemma_byte_len_push(init, s.last());
        assert(init.push(s.last()) =~= s);
        assert(is_ident_continue(s[s.len() - 1]));
        assert(char_width(s.last()) == 1);
    }
}

pub proof fn lemma_byte_len_prefix(s: Seq<char>, i: int)
    requires
        0 <= i <= s.len(),
    ensures
        byte_len(s.take(i)) <= byte_len(s),
{
    lemma_byte_len_append(s.take(i), s.skip(i));
    assert(s.take(i) + s.skip(i) =~= s);
}

/// Byte offsets grow with character indices, strictly where characters
/// lie between.
pub proof fn lemma_byte_at_mono(s: Seq<char>, a: int, b: int)
    requires
        0 <= a <= b <= s.len(),
    ensures
        byte_at(s, a) <= byte_at(s, b) <= byte_len(s),
        a < b ==> byte_at(s, a) < byte_at(s, b),
{
    let mid = s.subrange(a, b);
    lemma_byte_len_append(s.take(a), mid);
    assert(s.take(a) + mid =~= s.take(b));
    lemma_byte_len_prefix(s, b);
    if a < b {
        lemma_byte_len_append(seq![mid[0]], mid.drop_first());
        assert(seq![mid[0]] + mid.drop_first() =~= mid);
        lemma_byte_len_push(Seq::<char>::empty(), mid[0]);
        assert(Seq::<char>::empty().push(mid[0]) =~= seq![mid[0]]);
        assert(encode_utf8(Seq::<char>::empty()) =~= Seq::<u8>::empty());
        assert(char_width(mid[0]) >= 1);
    }
}

/// Appends one character to a string (`String::push`).
#[verifier::external_body]
pub(crate) fn push_char(s: &mut String, c: char)
    ensures
        final(s)@ == old(s)@.push(c),
{
    s.push(c);
}

/// The characters of a string slice, in order.
pub fn chars_of(input: &str) -> (out: Vec<char>)
    ensures
        out@ == input@,
{
    let mut out: Vec<char> = Vec::new();
    for c in it: input.chars()
        invariant
            it.seq() == input@,
            out@ == it.seq().take(it.index() as int),
    {
        out.push(c);
    }
    out
}

/// Builds the string made of `chars[start..end]`.
pub fn string_of(chars: &Vec<char>, start: usize, end: usize) -> (s: String)
    requires
        start <= end <= chars.len(),
    ensures
        s@ == chars@.subrange(start as int, end as int),
{
    let mut s = String::new();
    let mut i = start;
    while i < end
        invariant
            start <= i <= end <= chars.len(),
            s@ == chars@.subrange(start as int, i as int),
        decreases end - i,
    {
        push_char(&mut s, chars[i]);
        assert(chars@.subrange(start as int, i as int).push(chars@[i as int]) =~= chars@.subrange(
            start as int,
            i + 1,
        ));
        i += 1;
    }
    s
}

/// An owned copy of a string slice.
pub fn owned(s: &str) -> (r: String)
    ensures
        r@ == s@,
{
    s.to_owned()
}

/// Character-wise equality of two string slices.
pub fn str_equal(a: &str, b: &str) -> (r: bool)
    ensures
        r == (a@ == b@),
{
    let x = a.to_owned();
    let y = b.to_owned();
    x == y
}

/// Appends a string slice to a string.
pub fn append_str(s: &mut String, t: &str)
    ensures
        final(s)@ == old(s)@ + t@,
{
    let chars = chars_of(t);
    let mut i: usize = 0;
    let ghost start = s@;
    while i < chars.len()
        invariant
            i <= chars.len(),
            chars@ == t@,
            s@ == start + chars@.take(i as int),
        decreases chars.len() - i,
    {
        push_char(s, chars[i]);
        assert(start + chars@.take(i as int).push(chars@[i as int]) =~= start + chars@.take(i + 1));
        i += 1;
    }
    assert(chars@.take(chars.len() as int) =~= chars@);
}

/// The concatenation of two string slices.
pub fn concat(a: &str, b: &str) -> (r: String)
    ensures
        r@ == a@ + b@,
{
    let mut r = owned(a);
    append_str(&mut r, b);
    r
}

/// ASCII lower-casing of one character; other characters are unchanged.
pub open spec fn lower_char(c: char) -> char {
    if 'A' <= c && c <= 'Z' {
        ((c as u32) + 32) as char
    } else {
        c
    }
}

/// ASCII lower-casing of a character sequence.
pub open spec fn lower(s: Seq<char>) -> Seq<char> {
    Seq::new(s.len(), |i: int| lower_char(s[i]))
}

pub fn lower_char_exec(c: char) -> (r: char)
    ensures
        r == lower_char(c),
{
    if 'A' <= c && c <= 'Z' {
        let v = (c as u8) + 32;
        assert(v as char == ((c as u32) + 32) as char);
        v as char
    } else {
        c
    }
}

/// `str::to_ascii_lowercase`: ASCII upper-case letters become lower-case.
pub fn to_ascii_lowercase(s: &str) -> (r: String)
    ensures
        r@ == lower(s@),
{
    let chars = chars_of(s);
    let mut r = String::new();
    let mut i: usize = 0;
    while i < chars.len()
        invariant
            i <= chars.len(),
            chars@ == s@,
            r@ =~= lower(s@.take(i as int)),
        decreases chars.len() - i,
    {
        push_char(&mut r, lower_char_exec(chars[i]));
        i += 1;
    }
    assert(s@.take(chars.len() as int) =~= s@);
    r
}

/// The decimal digit character for `d < 10`.
pub open spec fn digit_of(d: nat) -> char {
    (('0' as u32) + d) as char
}

/// Decimal notation of a natural number, without leading zeros.
pub open spec fn decimal(v: nat) -> Seq<char>
    decreases v,
{
    if v < 10 {
        seq![digit_of(v)]
    } else {
        decimal(v / 10).push(digit_of(v % 10))
    }
}

/// Decimal notation of an integer, with a leading `-` when negative.
pub open spec fn signed_decimal(v: int) -> Seq<char> {
    if v < 0 {
        seq!['-'] + decimal((-v) as nat)
    } else {
        decimal(v as nat)
    }
}

fn push_decimal(s: &mut String, v: u64)
    ensures
        final(s)@ == old(s)@ + decimal(v as nat),
    decreases v,
{
    if v < 10 {
        let d = (('0' as u8) + (v as u8)) as char;
        assert(d == digit_of(v as nat));
        push_char(s, d);
        assert(decimal(v as nat) =~= seq![d]);
    } else {
        push_decimal(s, v / 10);
        let d = (('0' as u8) + ((v % 10) as u8)) as char;
        assert(d == digit_of((v % 10) as nat));
        push_char(s, d);
        assert(old(s)@ + decimal((v / 10) as nat) + seq![d] =~= old(s)@ + decimal(v as nat));
    }
}

/// Decimal rendering of an unsigned integer.
pub fn u64_to_string(v: u64) -> (r: String)
    ensures
        r@ == decimal(v as nat),
{
    let mut r = String::new();
    push_decimal(&mut r, v);
    assert(Seq::<char>::empty() + decimal(v as nat) =~= decimal(v as nat));
    r
}

/// Decimal rendering of a signed integer.
pub fn i64_to_string(v: i64) -> (r: String)
    ensures
        r@ == signed_decimal(v as int),
{
    let mut r = String::new();
    if v < 0 {
        push_char(&mut r, '-');
        let m: u64 = (-(v as i128)) as u64;
        push_decimal(&mut r, m);
    } else {
        push_decimal(&mut r, v as u64);
        assert(Seq::<char>::empty() + decimal(v as nat) =~= decimal(v as nat));
    }
    r
}

// ---------------------------------------------------------------------------
// Source positions and scanning
// ---------------------------------------------------------------------------
/// Number of `'\n'` characters in `s`.
pub open spec fn newline_count(s: Seq<char>) -> nat
    decreases s.len(),
{
    if s.len() == 0 {
        0
    } else {
        newline_count(s.drop_last()) + if s.last() == '\n' {
            1nat
        } else {
            0nat
        }
    }
}

/// Index just after the last `'\n'` of `s`, or 0.
pub open spec fn line_start(s: Seq<char>) -> nat
    decreases s.len(),
{
    if s.len() == 0 {
        0
    } else if s.last() == '\n' {
        s.len()
    } else {
        line_start(s.drop_last())
    }
}

/// Byte offset of character index `j`.
pub open spec fn byte_at(s: Seq<char>, j: int) -> nat {
    byte_len(s.take(j))
}

/// One-based line of character index `j`.
pub open spec fn line_at(s: Seq<char>, j: int) -> nat {
    newline_count(s.take(j)) + 1
}

/// One-based column, in characters, of character index `j`.
pub open spec fn column_at(s: Seq<char>, j: int) -> nat {
    (j - line_start(s.take(j)) + 1) as nat
}

pub proof fn lemma_line_bounds(s: Seq<char>)
    ensures
        newline_count(s) <= s.len(),
        line_start(s) <= s.len(),
    decreases s.len(),
{
    if s.len() > 0 {
        lemma_line_bounds(s.drop_last());
    }
}

/// First index at or after `i` that does not hold a blank character.
pub open spec fn skip_blank(s: Seq<char>, i: int) -> int
    decreases s.len() - i,
{
    if 0 <= i < s.len() && is_blank(s[i]) {
        skip_blank(s, i + 1)
    } else {
        i
    }
}

/// End of the run of identifier characters starting at `i`.
pub open spec fn ident_end(s: Seq<char>, i: int) -> int
    decreases s.len() - i,
{
    if 0 <= i < s.len() && is_ident_continue(s[i]) {
        ident_end(s, i + 1)
    } else {
        i
    }
}

/// End of the run of decimal digits starting at `i`.
pub open spec fn digits_end(s: Seq<char>, i: int) -> int
    decreases s.len() - i,
{
    if 0 <= i < s.len() && is_digit(s[i]) {
        digits_end(s, i + 1)
    } else {
        i
    }
}

pub proof fn lemma_skip_blank(s: Seq<char>, i: int)
    requires
        0 <= i <= s.len(),
    ensures
        i <= skip_blank(s, i) <= s.len(),
        skip_blank(s, i) < s.len() ==> !is_blank(s[skip_blank(s, i)]),
    decreases s.len() - i,
{
    if i < s.len() && is_blank(s[i]) {
        lemma_skip_blank(s, i + 1);
    }
}

/// Everything `skip_blank` passes over is blank.
pub proof fn lemma_skip_blank_run(s: Seq<char>, i: int)
    requires
        0 <= i <= s.len(),
    ensures
        forall|k: int| i <= k < skip_blank(s, i) ==> is_blank(#[trigger] s[k]),
    decreases s.len() - i,
{
    if i < s.len() && is_blank(s[i]) {
        lemma_skip_blank_run(s, i + 1);
    }
}

pub proof fn lemma_ident_end(s: Seq<char>, i: int)
    requires
        0 <= i <= s.len(),
    ensures
        i <= ident_end(s, i) <= s.len(),
        forall|k: int| i <= k < ident_end(s, i) ==> is_ident_continue(#[trigger] s[k]),
    decreases s.len() - i,
{
    if i < s.len() && is_ident_continue(s[i]) {
        lemma_ident_end(s, i + 1);
    }
}

pub proof fn lemma_digits_end(s: Seq<char>, i: int)
    requires
        0 <= i <= s.len(),
    ensures
        i <= digits_end(s, i) <= s.len(),
        forall|k: int| i <= k < digits_end(s, i) ==> is_digit(#[trigger] s[k]),
    decreases s.len() - i,
{
    if i < s.len() && is_digit(s[i]) {
        lemma_digits_end(s, i + 1);
    }
}

/// The position after consuming `chars[j]`, from the position before it.
pub fn next_position(chars: &Vec<char>, j: usize, byte: usize, line: usize, column: usize) -> (r: (
    usize,
    usize,
    usize,
))
    requires
        j < chars.len() < usize::MAX,
        byte_len(chars@) <= usize::MAX,
        byte == byte_at(chars@, j as int),
        line == line_at(chars@, j as int),
        column == column_at(chars@, j as int),
    ensures
        r.0 == byte_at(chars@, j + 1),
        r.1 == line_at(chars@, j + 1),
        r.2 == column_at(chars@, j + 1),
{
    let c = chars[j];
    proof {
        let s = chars@;
        assert(s.take(j + 1).drop_last() =~= s.take(j as int));
        assert(s.take(j + 1) =~= s.take(j as int).push(c));
        lemma_byte_len_push(s.take(j as int), c);
        lemma_byte_len_prefix(s, j + 1);
        lemma_line_bounds(s.take(j as int));
    }
    let width = utf8_width(c);
    if c == '\n' {
        (byte + width, line + 1, 1)
    } else {
        (byte + width, line, column + 1)
    }
}

/// Index of the first character at or after `i` that is not blank.
pub fn skip_blank_exec(chars: &Vec<char>, i: usize) -> (r: usize)
    requires
        i <= chars.len(),
    ensures
        r == skip_blank(chars@, i as int),
{
    let mut k = i;
    while k < chars.len() && blank_char(chars[k])
        invariant
            i <= k <= chars.len(),
            skip_blank(chars@, i as int) == skip_blank(chars@, k as int),
        decreases chars.len() - k,
    {
        k += 1;
    }
    k
}

/// End of the identifier characters starting at `i`.
pub fn ident_end_exec(chars: &Vec<char>, i: usize) -> (r: usize)
    requires
        i <= chars.len(),
    ensures
        r == ident_end(chars@, i as int),
{
    let mut k = i;
    while k < chars.len() && ident_continue_char(chars[k])
        invariant
            i <= k <= chars.len(),
            ident_end(chars@, i as int) == ident_end(chars@, k as int),
        decreases chars.len() - k,
    {
        k += 1;
    }
    k
}

/// End of the decimal digits starting at `i`.
pub fn digits_end_exec(chars: &Vec<char>, i: usize) -> (r: usize)
    requires
        i <= chars.len(),
    ensures
        r == digits_end(chars@, i as int),
{
    let mut k = i;
    while k < chars.len() && digit_char(chars[k])
        invariant
            i <= k <= chars.len(),
            digits_end(chars@, i as int) == digits_end(chars@, k as int),
        decreases chars.len() - k,
    {
        k += 1;
    }
    k
}

/// The characters of `input` together with the fact that its UTF-8 encoding
/// fits in memory.
pub fn source_chars(input: &str) -> (out: Vec<char>)
    ensures
        out@ == input@,
        byte_len(input@) <= usize::MAX,
{
    let bytes = input.as_bytes();
    let n = bytes.len();
    assert(n == byte_len(input@));
    chars_of(input)
}

/// The position at character index `to`, from the position at `from`.
pub fn advance_position(
    chars: &Vec<char>,
    from: usize,
    to: usize,
    byte: usize,
    line: usize,
    column: usize,
) -> (r: (usize, usize, usize))
    requires
        from <= to <= chars.len() < usize::MAX,
        byte_len(chars@) <= usize::MAX,
        byte == byte_at(chars@, from as int),
        line == line_at(chars@, from as int),
        column == column_at(chars@, from as int),
    ensures
        r.0 == byte_at(chars@, to as int),
        r.1 == line_at(chars@, to as int),
        r.2 == column_at(chars@, to as int),
{
    let mut k = from;
    let mut position = (byte, line, column);
    while k < to
        invariant
            from <= k <= to <= chars.len() < usize::MAX,
            byte_len(chars@) <= usize::MAX,
            position.0 == byte_at(chars@, k as int),
            position.1 == line_at(chars@, k as int),
            position.2 == column_at(chars@, k as int),
        decreases to - k,
    {
        position = next_position(chars, k, position.0, position.1, position.2);
        k += 1;
    }
    position
}

} // verus!
