//! Exact helpers over characters and bytes, and the one call into std's UTF-8 decoder.

use vstd::prelude::*;
use vstd::utf8::*;

verus! {

/// The characters of a string slice, one per element.
pub fn chars_of(s: &str) -> (chars: Vec<char>)
    ensures
        chars@ == s@,
{
    let mut chars: Vec<char> = Vec::new();
    for c in it: s.chars()
        invariant
            chars@ == it.seq().take(it.index() as int),
    {
        chars.push(c);
    }
    chars
}

/// Whether `chars[start..start + lit.len()]` exists and spells `lit`.
pub fn chars_match_at(chars: &Vec<char>, start: usize, lit: &str) -> (found: bool)
    ensures
        found == (start + lit@.len() <= chars@.len() && chars@.subrange(
            start as int,
            start + lit@.len(),
        ) == lit@),
{
    let n = lit.unicode_len();
    if start > chars.len() || n > chars.len() - start {
        return false;
    }
    let mut i: usize = 0;
    while i < n
        invariant
            n == lit@.len(),
            start + n <= chars.len(),
            i <= n,
            forall|j: int| 0 <= j < i ==> chars@[start + j] == lit@[j],
        decreases n - i,
    {
        if chars[start + i] != lit.get_char(i) {
            assert(chars@.subrange(start as int, start + n)[i as int] != lit@[i as int]);
            return false;
        }
        i = i + 1;
    }
    assert(chars@.subrange(start as int, start + n) =~= lit@);
    true
}

/// The ASCII lowercase of a character: `A`..=`Z` map to `a`..=`z`, everything else is kept.
pub open spec fn ascii_lowercase(c: char) -> char {
    if 'A' <= c && c <= 'Z' {
        ((c as u32) + 32) as char
    } else {
        c
    }
}

/// The ASCII lowercase of a character.
pub fn to_ascii_lowercase(c: char) -> (lower: char)
    ensures
        lower == ascii_lowercase(c),
{
    if 'A' <= c && c <= 'Z' {
        ((c as u8) + 32) as char
    } else {
        c
    }
}

/// The characters that a sequence of ASCII bytes stands for.
pub open spec fn ascii_text(bytes: Seq<u8>) -> Seq<char> {
    bytes.map_values(|b: u8| b as char)
}

/// Bytes below 0x80 are valid UTF-8, and they decode to one character each.
pub proof fn lemma_ascii_is_utf8(bytes: Seq<u8>)
    requires
        forall|i: int| 0 <= i < bytes.len() ==> bytes[i] < 0x80,
    ensures
        valid_utf8(bytes),
        decode_utf8(bytes) == ascii_text(bytes),
    decreases bytes.len(),
{
    if bytes.len() > 0 {
        let b = bytes[0];
        assert((b & 0x7f) == b) by (bit_vector)
            requires
                b < 0x80,
        ;
        let rest = bytes.subrange(1, bytes.len() as int);
        assert(pop_first_scalar(bytes) == rest);
        lemma_ascii_is_utf8(rest);
        assert(decode_utf8(bytes) =~= ascii_text(bytes));
    } else {
        assert(decode_utf8(bytes) =~= ascii_text(bytes));
    }
}

#[verifier::external_type_specification]
#[verifier::external_body]
pub struct ExUtf8Error(core::str::Utf8Error);

/// Calls `std::str::from_utf8`, which accepts exactly the byte slices that
/// are well-formed UTF-8 and then views them as the characters they encode.
/// The contract states both halves with vstd's model of UTF-8.
#[verifier::external_body]
pub fn str_from_utf8(bytes: &[u8]) -> (text: Result<&str, core::str::Utf8Error>)
    ensures
        text is Ok <==> valid_utf8(bytes@),
        text matches Ok(s) ==> s@ == decode_utf8(bytes@),
{
    core::str::from_utf8(bytes)
}

} // verus!
