//! The parts of the standard library that rest on the Unicode tables.
use vstd::prelude::*;

verus! {

/// The lowercase form of a text.
pub uninterp spec fn lowercase(text: Seq<char>) -> Seq<char>;

/// Whether a character has the Unicode property `Alphabetic`.
pub uninterp spec fn alphabetic(c: char) -> bool;

/// The uppercase form of a character, which may be several characters.
pub uninterp spec fn uppercase(c: char) -> Seq<char>;

/// The text that bytes stand for, with the replacement character in place of invalid UTF-8.
pub uninterp spec fn lossy_text(bytes: Seq<u8>) -> Seq<char>;

/// Every character of `text` is an ASCII character.
pub open spec fn ascii(text: Seq<char>) -> bool {
    forall|i: int| 0 <= i < text.len() ==> (#[trigger] text[i] as u32) < 0x80
}

pub open spec fn ascii_letter(c: char) -> bool {
    'a' <= c <= 'z' || 'A' <= c <= 'Z'
}

/// `c` with the letters `a` to `z` replaced by `A` to `Z`.
pub open spec fn ascii_upper(c: char) -> char {
    if 'a' <= c <= 'z' {
        (c as u32 - 32) as char
    } else {
        c
    }
}

/// A text in lower case: of an ASCII text, the text with `A` to `Z` replaced by `a` to `z`.
pub open spec fn lowered(text: Seq<char>) -> Seq<char> {
    if ascii(text) {
        text.map_values(|c: char| crate::text::ascii_lower(c))
    } else {
        lowercase(text)
    }
}

/// `c` is a letter: of the ASCII characters, `a` to `z` and `A` to `Z`.
pub open spec fn letter(c: char) -> bool {
    if (c as u32) < 0x80 {
        ascii_letter(c)
    } else {
        alphabetic(c)
    }
}

/// `c` in upper case: of an ASCII character, that character with `a` to `z` replaced by `A` to `Z`.
pub open spec fn raised(c: char) -> Seq<char> {
    if (c as u32) < 0x80 {
        seq![ascii_upper(c)]
    } else {
        uppercase(c)
    }
}

/// Every one of `bytes` stands for an ASCII character.
pub open spec fn ascii_bytes(bytes: Seq<u8>) -> bool {
    forall|i: int| 0 <= i < bytes.len() ==> #[trigger] bytes[i] < 0x80
}

/// The text that bytes stand for: of ASCII bytes, one character for each.
pub open spec fn decoded(bytes: Seq<u8>) -> Seq<char> {
    if ascii_bytes(bytes) {
        bytes.map_values(|b: u8| b as char)
    } else {
        lossy_text(bytes)
    }
}

/// `str::to_lowercase`: the result depends on the text alone, and of an ASCII text it is the text
/// with `A` to `Z` replaced by `a` to `z`.
pub assume_specification[ str::to_lowercase ](s: &str) -> (res: String)
    ensures
        res@ == lowercase(s@),
        ascii(s@) ==> res@ == s@.map_values(|c: char| crate::text::ascii_lower(c)),
;

/// `char::is_alphabetic`: the result depends on the character alone, and the ASCII characters for
/// which it holds are the letters.
pub assume_specification[ char::is_alphabetic ](c: char) -> (res: bool)
    ensures
        res == alphabetic(c),
        (c as u32) < 0x80 ==> res == ascii_letter(c),
;

/// `char::to_uppercase`, collected: the result depends on the character alone, and of an ASCII
/// character it is that character with `a` to `z` replaced by `A` to `Z`.
#[verifier::external_body]
pub(crate) fn uppercase_text(c: char) -> (res: String)
    ensures
        res@ == uppercase(c),
        (c as u32) < 0x80 ==> res@ == seq![ascii_upper(c)],
{
    c.to_uppercase().collect()
}

/// `String::from_utf8_lossy`: the result depends on the bytes alone, and of bytes below 128 it is
/// the ASCII text that they stand for.
#[verifier::external_body]
pub(crate) fn text_of_bytes(bytes: &[u8]) -> (res: String)
    ensures
        res@ == lossy_text(bytes@),
        ascii_bytes(bytes@) ==> res@ == bytes@.map_values(|b: u8| b as char),
{
    String::from_utf8_lossy(bytes).into_owned()
}

} // verus!
