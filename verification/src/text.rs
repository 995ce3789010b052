//! Characters, positions and conversions between strings and character vectors.

use vstd::prelude::*;
use vstd::utf8::{decode_utf8, encode_utf8, encode_utf8_decode_utf8};

verus! {

/// White space between tokens: blank, tab, line feed, carriage return.
pub open spec fn is_space(c: char) -> bool {
    c == ' ' || c == '\t' || c == '\n' || c == '\r'
}

/// A character that may begin an identifier.
pub open spec fn is_ident_start(c: char) -> bool {
    ('a' <= c && c <= 'z') || ('A' <= c && c <= 'Z') || c == '_'
}

/// A decimal digit.
pub open spec fn is_digit(c: char) -> bool {
    '0' <= c && c <= '9'
}

/// A character that may continue an identifier.
pub open spec fn is_ident_part(c: char) -> bool {
    is_ident_start(c) || is_digit(c)
}

/// A character that ends a line.
pub open spec fn is_line_break(c: char) -> bool {
    c == '\n' || c == '\r'
}

/// Zero-based line of the character at `offset`: the number of line feeds before it.
pub open spec fn line_of(text: Seq<char>, offset: int) -> int
    decreases offset,
{
    if offset <= 0 {
        0
    } else if text[offset - 1] == '\n' {
        line_of(text, offset - 1) + 1
    } else {
        line_of(text, offset - 1)
    }
}

/// Zero-based column of the character at `offset`: the number of characters
/// between it and the start of its line.
pub open spec fn column_of(text: Seq<char>, offset: int) -> int
    decreases offset,
{
    if offset <= 0 {
        0
    } else if text[offset - 1] == '\n' {
        0
    } else {
        column_of(text, offset - 1) + 1
    }
}

/// Lines and columns never exceed the offset they belong to.
pub proof fn lemma_position_bounds(text: Seq<char>, offset: int)
    requires
        0 <= offset,
    ensures
        0 <= line_of(text, offset) <= offset,
        0 <= column_of(text, offset) <= offset,
    decreases offset,
{
    if offset > 0 {
        lemma_position_bounds(text, offset - 1);
    }
}

/// Whether `c` is white space.
pub fn space_char(c: char) -> (b: bool)
    ensures
        b == is_space(c),
{
    c == ' ' || c == '\t' || c == '\n' || c == '\r'
}

/// Whether `c` may begin an identifier.
pub fn ident_start_char(c: char) -> (b: bool)
    ensures
        b == is_ident_start(c),
{
    ('a' <= c && c <= 'z') || ('A' <= c && c <= 'Z') || c == '_'
}

/// Whether `c` is a decimal digit.
pub fn digit_char(c: char) -> (b: bool)
    ensures
        b == is_digit(c),
{
    '0' <= c && c <= '9'
}

/// Whether `c` may continue an identifier.
pub fn ident_part_char(c: char) -> (b: bool)
    ensures
        b == is_ident_part(c),
{
    ident_start_char(c) || digit_char(c)
}

/// Whether `c` ends a line.
pub fn line_break_char(c: char) -> (b: bool)
    ensures
        b == is_line_break(c),
{
    c == '\n' || c == '\r'
}

/// Appends one character to a string.
///
/// Wraps `String::push`: afterwards the string holds what it held before,
/// followed by `c`.
#[verifier::external_body]
pub(crate) fn push_char(s: &mut String, c: char)
    ensures
        final(s)@ == old(s)@.push(c),
{
    s.push(c)
}

/// Collects the characters of a string slice.
pub fn chars_of(s: &str) -> (out: Vec<char>)
    ensures
        out@ == s@,
{
    let mut out: Vec<char> = Vec::new();
    let mut it = s.chars();
    for c in iter: it
        invariant
            out@ == iter.seq().take(iter.index() as int),
    {
        out.push(c);
    }
    out
}

/// Appends the characters `start..end` of `text` to `out`.
pub fn append_range(out: &mut String, text: &Vec<char>, start: usize, end: usize)
    requires
        start <= end <= text.len(),
    ensures
        final(out)@ == old(out)@ + text@.subrange(start as int, end as int),
{
    let mut i: usize = start;
    assert(text@.subrange(start as int, start as int) =~= Seq::<char>::empty());
    assert(out@ + Seq::<char>::empty() =~= out@);
    while i < end
        invariant
            start <= i <= end <= text.len(),
            out@ == old(out)@ + text@.subrange(start as int, i as int),
        decreases end - i,
    {
        push_char(out, text[i]);
        i += 1;
        assert(old(out)@ + text@.subrange(start as int, i as int) =~= (old(out)@
            + text@.subrange(start as int, i as int - 1)).push(text@[i as int - 1]));
    }
}

/// Copies the characters `start..end` of `text` into a new string.
pub fn string_of(text: &Vec<char>, start: usize, end: usize) -> (out: String)
    requires
        start <= end <= text.len(),
    ensures
        out@ == text@.subrange(start as int, end as int),
{
    let mut out = String::new();
    append_range(&mut out, text, start, end);
    assert(Seq::<char>::empty() + text@.subrange(start as int, end as int) =~= text@.subrange(
        start as int,
        end as int,
    ));
    out
}

/// Whether the characters `start..end` of `text` spell `word`.
pub fn spells(text: &Vec<char>, start: usize, end: usize, word: &str) -> (b: bool)
    requires
        start <= end <= text.len(),
    ensures
        b == (text@.subrange(start as int, end as int) == word@),
{
    let n = word.unicode_len();
    if end - start != n {
        return false;
    }
    let mut i: usize = 0;
    while i < n
        invariant
            start <= end <= text.len(),
            n == end - start,
            n == word@.len(),
            i <= n,
            forall|k: int| 0 <= k < i ==> text@[start + k] == word@[k],
        decreases n - i,
    {
        if text[start + i] != word.get_char(i) {
            assert(text@.subrange(start as int, end as int)[i as int] != word@[i as int]);
            return false;
        }
        i += 1;
    }
    assert(text@.subrange(start as int, end as int) =~= word@);
    true
}

/// Whether two string slices hold the same characters.
pub fn same_text(a: &str, b: &str) -> (r: bool)
    ensures
        r == (a@ == b@),
{
    let x = a.as_bytes();
    let y = b.as_bytes();
    proof {
        encode_utf8_decode_utf8(a@);
        encode_utf8_decode_utf8(b@);
    }
    if x.len() != y.len() {
        return false;
    }
    let mut i: usize = 0;
    while i < x.len()
        invariant
            x@.len() == y@.len(),
            i <= x@.len(),
            forall|k: int| 0 <= k < i ==> x@[k] == y@[k],
            x@ == encode_utf8(a@),
            y@ == encode_utf8(b@),
            decode_utf8(encode_utf8(a@)) == a@,
            decode_utf8(encode_utf8(b@)) == b@,
        decreases x@.len() - i,
    {
        if x[i] != y[i] {
            return false;
        }
        i += 1;
    }
    assert(x@ =~= y@);
    true
}

} // verus!
