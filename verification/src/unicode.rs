//! The Unicode character properties the engine takes from the standard library.

use vstd::prelude::*;

verus! {

/// Whether the standard library classes `c` as alphabetic or numeric.
pub uninterp spec fn alphanumeric(c: char) -> bool;

/// The lower-case form that the standard library gives a string.
pub uninterp spec fn lowercased(s: Seq<char>) -> Seq<char>;

/// A string without the white space at its two ends, as the standard
/// library strips it.
pub uninterp spec fn trimmed(s: Seq<char>) -> Seq<char>;

/// Calls `char::is_alphanumeric`. The contract gives the answer the name
/// `alphanumeric`: it depends on the character alone.
#[verifier::external_body]
pub(crate) fn char_is_alphanumeric(c: char) -> (r: bool)
    ensures
        r == alphanumeric(c),
{
    c.is_alphanumeric()
}

/// Calls `str::to_lowercase`. The contract gives the new string the name
/// `lowercased`: it depends on the characters of `s` alone.
#[verifier::external_body]
pub(crate) fn str_to_lowercase(s: &str) -> (r: String)
    ensures
        r@ == lowercased(s@),
{
    s.to_lowercase()
}

/// Calls `str::trim`. The contract gives the result the name `trimmed`:
/// it depends on the characters of `s` alone.
#[verifier::external_body]
pub(crate) fn str_trim(s: &str) -> (r: &str)
    ensures
        r@ == trimmed(s@),
{
    s.trim()
}

/// Calls `String::push`, which appends one character.
#[verifier::external_body]
pub(crate) fn string_push(s: &mut String, c: char)
    ensures
        final(s)@ == old(s)@.push(c),
{
    s.push(c)
}

/// A string of the characters `chars`.
pub fn string_from_chars(chars: &Vec<char>) -> (r: String)
    ensures
        r@ == chars@,
{
    let mut out = String::new();
    let mut i: usize = 0;
    while i < chars.len()
        invariant
            i <= chars.len(),
            out@ == chars@.take(i as int),
        decreases chars.len() - i,
    {
        string_push(&mut out, chars[i]);
        i += 1;
        assert(out@ =~= chars@.take(i as int));
    }
    assert(chars@.take(chars.len() as int) =~= chars@);
    out
}

/// The characters of `s`.
pub fn chars_of(s: &str) -> (r: Vec<char>)
    ensures
        r@ == s@,
{
    let mut out: Vec<char> = Vec::new();
    let count: usize = s.unicode_len();
    let mut i: usize = 0;
    while i < count
        invariant
            i <= count,
            count == s@.len(),
            out@ == s@.take(i as int),
        decreases count - i,
    {
        out.push(s.get_char(i));
        i += 1;
        assert(out@ =~= s@.take(i as int));
    }
    assert(s@.take(count as int) =~= s@);
    out
}

/// How many bytes a character takes in UTF-8.
pub open spec fn utf8_width(c: char) -> nat {
    if (c as u32) < 0x80 {
        1
    } else if (c as u32) < 0x800 {
        2
    } else if (c as u32) < 0x10000 {
        3
    } else {
        4
    }
}

/// How many bytes the first `n` characters of `chars` take in UTF-8.
pub open spec fn utf8_len(chars: Seq<char>, n: int) -> nat
    decreases n,
{
    if n <= 0 {
        0
    } else {
        utf8_len(chars, n - 1) + utf8_width(chars[n - 1])
    }
}

/// A byte count as a `usize`: the largest one where it is beyond that.
pub open spec fn clipped(count: nat) -> usize {
    if count > usize::MAX {
        usize::MAX
    } else {
        count as usize
    }
}

/// How many bytes the first `n` characters of `chars` take in UTF-8.
pub fn utf8_offset(chars: &Vec<char>, n: usize) -> (r: usize)
    requires
        n <= chars@.len(),
    ensures
        r == clipped(utf8_len(chars@, n as int)),
{
    let mut total: usize = 0;
    let mut i: usize = 0;
    while i < n
        invariant
            i <= n <= chars@.len(),
            total == clipped(utf8_len(chars@, i as int)),
        decreases n - i,
    {
        let code: u32 = chars[i] as u32;
        let width: usize = if code < 0x80 {
            1
        } else if code < 0x800 {
            2
        } else if code < 0x10000 {
            3
        } else {
            4
        };
        total = if total > usize::MAX - width {
            usize::MAX
        } else {
            total + width
        };
        i += 1;
    }
    total
}

/// Whether two strings hold the same characters.
pub fn same_text(a: &str, b: &str) -> (r: bool)
    ensures
        r == (a@ == b@),
{
    let x = a.to_owned();
    let y = b.to_owned();
    x == y
}

/// Whether `c` can be part of a word: a letter, a digit or an underscore.
pub open spec fn word_char(c: char) -> bool {
    alphanumeric(c) || c == '_'
}

/// Whether `ch` can be part of a word.
pub fn is_word_char(ch: char) -> (r: bool)
    ensures
        r == word_char(ch),
{
    char_is_alphanumeric(ch) || ch == '_'
}

} // verus!
