//! The escaping policy for keys and values that are written back into a query.
//!
//! A byte is written as `%XX` when it is a control character, a space, one of
//! `"`, `#`, `<`, `>`, or not ASCII. Every other byte is written as itself.

use vstd::prelude::*;
use vstd::string::StringExecFns;
use vstd::utf8::encode_utf8;

verus! {

/// Whether the policy writes byte `b` as an escape.
pub open spec fn is_escaped(b: u8) -> bool {
    b <= 0x20 || b >= 0x7f || b == 0x22 || b == 0x23 || b == 0x3c || b == 0x3e
}

/// The upper-case hexadecimal digit for `n`, where `0 <= n < 16`.
pub open spec fn hex_upper(n: int) -> char
    recommends
        0 <= n < 16,
{
    if n < 10 {
        (n + 0x30) as u8 as char
    } else {
        (n + 0x37) as u8 as char
    }
}

/// The escape of byte `b`: a percent sign and the two hexadecimal digits of `b`.
pub open spec fn escape_of(b: u8) -> Seq<char> {
    seq!['%', hex_upper(b as int / 16), hex_upper(b as int % 16)]
}

/// What the policy writes for byte `b`.
pub open spec fn escaped_byte(b: u8) -> Seq<char> {
    if is_escaped(b) {
        escape_of(b)
    } else {
        seq![b as char]
    }
}

/// What the policy writes for `bytes`: what it writes for each byte, in order.
pub open spec fn escaped(bytes: Seq<u8>) -> Seq<char>
    decreases bytes.len(),
{
    if bytes.len() == 0 {
        Seq::empty()
    } else {
        escaped(bytes.drop_last()) + escaped_byte(bytes.last())
    }
}

/// What the policy writes for `text`, taken as its UTF-8 bytes.
pub open spec fn escaped_text(text: Seq<char>) -> Seq<char> {
    escaped(encode_utf8(text))
}

/// Whether `c` can stand in a query as it is: a printable ASCII character
/// other than the space, `"`, `#`, `<` and `>`.
pub open spec fn is_query_char(c: char) -> bool {
    0x21 <= c as u32 <= 0x7e && c != '"' && c != '#' && c != '<' && c != '>'
}

/// Whether every character of `text` can stand in a query as it is.
pub open spec fn is_query_text(text: Seq<char>) -> bool {
    forall|i: int| 0 <= i < text.len() ==> is_query_char(#[trigger] text[i])
}

/// What the policy writes holds only characters that can stand in a query.
pub proof fn lemma_escaped_is_query_text(bytes: Seq<u8>)
    ensures
        is_query_text(escaped(bytes)),
    decreases bytes.len(),
{
    if bytes.len() > 0 {
        lemma_escaped_is_query_text(bytes.drop_last());
        let b = bytes.last();
        assert(is_query_text(escaped_byte(b))) by {
            if is_escaped(b) {
                assert(is_query_char(hex_upper(b as int / 16)));
                assert(is_query_char(hex_upper(b as int % 16)));
            }
        }
    }
}

/// Assumed of `percent_encoding::percent_encode_byte`, not proved: for every
/// byte it returns a percent sign followed by the byte's two hexadecimal
/// digits in upper case.
pub assume_specification[ percent_encoding::percent_encode_byte ](byte: u8) -> (out: &'static str)
    ensures
        out@ == escape_of(byte),
;

/// Assumed of `String::push`, not proved: it appends the character to the end
/// of the string.
pub assume_specification[ String::push ](s: &mut String, c: char)
    ensures
        final(s)@ == old(s)@.push(c),
;

/// Decides whether the policy escapes `b`.
pub fn must_escape(b: u8) -> (r: bool)
    ensures
        r == is_escaped(b),
{
    b <= 0x20 || b >= 0x7f || b == 0x22 || b == 0x23 || b == 0x3c || b == 0x3e
}

/// Appends to `out` what the policy writes for `text`.
pub fn push_escaped(out: &mut String, text: &str)
    ensures
        final(out)@ == old(out)@ + escaped_text(text@),
{
    let bytes = text.as_bytes();
    let mut i: usize = 0;
    while i < bytes.len()
        invariant
            i <= bytes@.len(),
            out@ == old(out)@ + escaped(bytes@.take(i as int)),
        decreases bytes@.len() - i,
    {
        let b = bytes[i];
        if must_escape(b) {
            out.append(percent_encoding::percent_encode_byte(b));
        } else {
            out.push(b as char);
        }
        proof {
            assert(bytes@.take(i + 1).drop_last() == bytes@.take(i as int));
        }
        i += 1;
    }
    proof {
        assert(bytes@.take(bytes@.len() as int) == bytes@);
    }
}

} // verus!
