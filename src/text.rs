//! Small string operations of std that the rest of the library builds on.

use vstd::prelude::*;
use vstd::utf8::{encode_utf8, is_char_boundary};

verus! {

/// The UTF-8 encoding of a text, which is what a `String` stores.
pub open spec fn bytes_of(s: Seq<char>) -> Seq<u8> {
    encode_utf8(s)
}

/// The characters with the Unicode property White_Space, which is what
/// `char::is_whitespace` tests.
pub open spec fn is_white_space(c: char) -> bool {
    let u = c as u32;
    ||| 0x9 <= u <= 0xd
    ||| u == 0x20
    ||| u == 0x85
    ||| u == 0xa0
    ||| u == 0x1680
    ||| 0x2000 <= u <= 0x200a
    ||| u == 0x2028
    ||| u == 0x2029
    ||| u == 0x202f
    ||| u == 0x205f
    ||| u == 0x3000
}

/// A text without its leading whitespace.
pub open spec fn trim_start_ws(s: Seq<char>) -> Seq<char>
    decreases s.len(),
{
    if s.len() > 0 && is_white_space(s[0]) {
        trim_start_ws(s.drop_first())
    } else {
        s
    }
}

/// A text without its trailing whitespace.
pub open spec fn trim_end_ws(s: Seq<char>) -> Seq<char>
    decreases s.len(),
{
    if s.len() > 0 && is_white_space(s.last()) {
        trim_end_ws(s.drop_last())
    } else {
        s
    }
}

/// A text without its leading and trailing whitespace.
pub open spec fn trimmed_of(s: Seq<char>) -> Seq<char> {
    trim_end_ws(trim_start_ws(s))
}

/// A text that holds nothing but whitespace, or nothing at all.
pub open spec fn is_blank(s: Seq<char>) -> bool {
    trimmed_of(s).len() == 0
}

/// The decimal digit `d`.
pub open spec fn digit_char(d: int) -> char {
    seq!['0', '1', '2', '3', '4', '5', '6', '7', '8', '9'][d]
}

/// The decimal digits of `n`, without leading zeros.
pub open spec fn digits_of(n: nat) -> Seq<char>
    decreases n,
{
    if n < 10 {
        seq![digit_char(n as int)]
    } else {
        digits_of(n / 10).push(digit_char((n % 10) as int))
    }
}

/// The decimal text of an integer, with a `-` when it is negative.
pub open spec fn decimal_of(n: int) -> Seq<char> {
    if n < 0 {
        seq!['-'] + digits_of((-n) as nat)
    } else {
        digits_of(n as nat)
    }
}

/// Relies on `str::trim`: the text with its leading and trailing whitespace
/// (`char::is_whitespace`) removed.
#[verifier::external_body]
pub(crate) fn trimmed(s: &str) -> (r: &str)
    ensures
        r@ == trimmed_of(s@),
{
    s.trim()
}

/// Whether the text holds nothing but whitespace.
pub fn blank(s: &str) -> (r: bool)
    ensures
        r == is_blank(s@),
{
    trimmed(s).is_empty()
}

/// Relies on `i32::to_string`: the decimal text of `n`.
#[verifier::external_body]
pub(crate) fn decimal(n: i32) -> (r: String)
    ensures
        r@ == decimal_of(n as int),
{
    n.to_string()
}

/// Relies on `String::insert`: the character's encoding is put at byte
/// offset `idx`, which must be a character boundary (std panics otherwise).
#[verifier::external_body]
pub(crate) fn insert_at(s: &mut String, idx: usize, c: char)
    requires
        is_char_boundary(bytes_of(old(s)@), idx as int),
    ensures
        bytes_of(final(s)@) == bytes_of(old(s)@).subrange(0, idx as int) + encode_utf8(seq![c])
            + bytes_of(old(s)@).subrange(idx as int, bytes_of(old(s)@).len() as int),
{
    s.insert(idx, c)
}

/// Relies on `String::drain` over a byte range: the bytes from `start` up to
/// `end` are removed; both ends must be character boundaries (std panics
/// otherwise).
#[verifier::external_body]
pub(crate) fn remove_range(s: &mut String, start: usize, end: usize)
    requires
        start <= end,
        is_char_boundary(bytes_of(old(s)@), start as int),
        is_char_boundary(bytes_of(old(s)@), end as int),
    ensures
        bytes_of(final(s)@) == bytes_of(old(s)@).subrange(0, start as int) + bytes_of(
            old(s)@,
        ).subrange(end as int, bytes_of(old(s)@).len() as int),
{
    s.drain(start..end);
}

/// Relies on `str::split_once` with a `char` pattern: the text before the first
/// occurrence of `sep` and the text after it, or `None` when `sep` does not occur.
#[verifier::external_body]
pub(crate) fn split_once_char(s: &str, sep: char) -> (r: Option<(&str, &str)>)
    ensures
        r is None <==> !s@.contains(sep),
        r matches Some((a, b)) ==> s@ == a@ + seq![sep] + b@ && !a@.contains(sep),
{
    s.split_once(sep)
}

/// Relies on `str::strip_suffix` with a `char` pattern: the text without its
/// last character when that character is `c`.
#[verifier::external_body]
pub(crate) fn strip_last_char(s: &str, c: char) -> (r: Option<&str>)
    ensures
        r is Some <==> (s@.len() > 0 && s@.last() == c),
        r matches Some(t) ==> t@ == s@.drop_last(),
{
    s.strip_suffix(c)
}

} // verus!
