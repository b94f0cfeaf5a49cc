//! UTF-8 BOM tolerance.
//!
//! Windows tooling loves to prepend EF BB BF, and a YAML parser takes it for content. Every YAML
//! (and frontmatter) parse goes through these helpers.
use vstd::prelude::*;
use vstd::slice::slice_subrange;

use crate::text::to_chars;

verus! {

/// Whether the bytes start with a UTF-8 BOM.
pub open spec fn starts_with_bom(b: Seq<u8>) -> bool {
    b.len() >= 3 && b[0] == 0xef && b[1] == 0xbb && b[2] == 0xbf
}

/// The bytes behind a leading BOM, or all of them where there is none.
pub open spec fn without_bom(b: Seq<u8>) -> Seq<u8> {
    if starts_with_bom(b) {
        b.skip(3)
    } else {
        b
    }
}

/// The text behind a leading BOM character, or all of it where there is none.
pub open spec fn without_bom_char(s: Seq<char>) -> Seq<char> {
    if s.len() > 0 && s[0] == '\u{feff}' {
        s.skip(1)
    } else {
        s
    }
}

/// Strip a single leading UTF-8 BOM from a byte slice, if present.
pub fn strip_utf8_bom(bytes: &[u8]) -> (r: &[u8])
    ensures
        r@ == without_bom(bytes@),
{
    if bytes.len() >= 3 && bytes[0] == 0xef && bytes[1] == 0xbb && bytes[2] == 0xbf {
        slice_subrange(bytes, 3, bytes.len())
    } else {
        bytes
    }
}

/// Strip a single leading BOM char from a string slice, if present.
pub fn strip_utf8_bom_str(s: &str) -> (r: &str)
    ensures
        r@ == without_bom_char(s@),
{
    let chars = to_chars(s);
    if chars.len() > 0 && chars[0] == '\u{feff}' {
        s.substring_char(1, chars.len())
    } else {
        s
    }
}

/// Whatever stands behind one BOM comes out untouched, a second BOM included.
pub proof fn only_one_bom_is_stripped(rest: Seq<u8>)
    ensures
        without_bom(seq![0xefu8, 0xbbu8, 0xbfu8] + rest) == rest,
{
    assert((seq![0xefu8, 0xbbu8, 0xbfu8] + rest).skip(3) =~= rest);
}

proof fn only_the_bom_char_encodes_to_the_bom(c: u32)
    requires
        vstd::utf8::is_scalar(c),
    ensures
        c == 0xfeff <==> starts_with_bom(vstd::utf8::encode_scalar(c)),
        c != 0xfeff ==> vstd::utf8::encode_scalar(c).len() < 3 ==> vstd::utf8::encode_scalar(c)[0]
            != 0xef,
        c == 0xfeff ==> vstd::utf8::encode_scalar(c).len() == 3,
        vstd::utf8::encode_scalar(c).len() >= 1,
{
    assert(0xfeffu32 >> 12 == 0xf) by (bit_vector);
    assert(c <= 0x7f ==> (c & 0x7F) as u8 != 0xef) by (bit_vector);
    assert(c <= 0x7ff ==> 0xC0u8 | (((c >> 6) & 0x1F) as u8) != 0xef) by (bit_vector);
    assert(0xF0u8 | (((c >> 18) & 0x07) as u8) != 0xef) by (bit_vector);
    assert(c <= 0xffff ==> ((0xE0u8 | (((c >> 12) & 0x0F) as u8) == 0xef && 0x80u8 | (((c >> 6)
        & 0x3F) as u8) == 0xbb && 0x80u8 | ((c & 0x3F) as u8) == 0xbf) <==> c == 0xfeff))
        by (bit_vector);
}

/// Stripping the BOM character from a text and stripping the BOM from the bytes of that text are
/// the same thing.
pub proof fn text_and_bytes_agree(s: Seq<char>)
    ensures
        without_bom(vstd::utf8::encode_utf8(s)) == vstd::utf8::encode_utf8(without_bom_char(s)),
{
    if s.len() > 0 {
        vstd::utf8::char_is_scalar(s[0]);
        let c = s[0] as u32;
        let head = vstd::utf8::encode_scalar(c);
        let tail = vstd::utf8::encode_utf8(s.drop_first());
        assert(s.drop_first() =~= s.skip(1));
        assert(vstd::utf8::encode_utf8(s) =~= head + tail);
        only_the_bom_char_encodes_to_the_bom(c);
        vstd::utf8::char_u32_cast(s[0], c);
        if s[0] == '\u{feff}' {
            assert((head + tail).skip(3) =~= tail);
        }
    }
}

/// Bytes that do not start with the three bytes of the BOM, and a text that does not start with its
/// character, come out as they are.
pub proof fn nothing_else_is_stripped(b: Seq<u8>, s: Seq<char>)
    ensures
        !seq![0xefu8, 0xbbu8, 0xbfu8].is_prefix_of(b) ==> without_bom(b) == b,
        s.len() == 0 || s[0] as u32 != 0xfeff ==> without_bom_char(s) == s,
        without_bom_char(seq!['\u{feff}'] + s) == s,
{
    if starts_with_bom(b) {
        assert(seq![0xefu8, 0xbbu8, 0xbfu8] =~= b.subrange(0, 3));
    }
    assert((seq!['\u{feff}'] + s).skip(1) =~= s);
}

} // verus!
