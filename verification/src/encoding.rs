//! Letter case and text encoding, as the standard library defines them.
use vstd::prelude::*;
use vstd::utf8::*;

verus! {

/// The result of `str::to_uppercase` on a text that is not all ASCII: its upper case form by
/// the Unicode case mapping.
pub uninterp spec fn wide_uppercase(s: Seq<char>) -> Seq<char>;

/// The result of `str::to_lowercase` on a text that is not all ASCII: its lower case form by
/// the Unicode case mapping.
pub uninterp spec fn wide_lowercase(s: Seq<char>) -> Seq<char>;

/// The upper case form of an ASCII character.
pub open spec fn upper_char(c: char) -> char {
    if 'a' <= c <= 'z' {
        (c as u32 - 32) as char
    } else {
        c
    }
}

/// The lower case form of an ASCII character.
pub open spec fn lower_char(c: char) -> char {
    if 'A' <= c <= 'Z' {
        (c as u32 + 32) as char
    } else {
        c
    }
}

/// The upper case form of a text.
pub open spec fn uppercase(s: Seq<char>) -> Seq<char> {
    if is_ascii_chars(s) {
        s.map_values(|c: char| upper_char(c))
    } else {
        wide_uppercase(s)
    }
}

/// The lower case form of a text.
pub open spec fn lowercase(s: Seq<char>) -> Seq<char> {
    if is_ascii_chars(s) {
        s.map_values(|c: char| lower_char(c))
    } else {
        wide_lowercase(s)
    }
}

/// Whether two texts are ASCII and differ in the case of letters only.
pub open spec fn same_but_case(a: Seq<char>, b: Seq<char>) -> bool {
    &&& is_ascii_chars(a)
    &&& is_ascii_chars(b)
    &&& a.len() == b.len()
    &&& forall|i: int| 0 <= i < a.len() ==> upper_char(#[trigger] a[i]) == upper_char(b[i])
}

/// Texts that differ in the case of ASCII letters only have the same upper case form and the
/// same lower case form.
pub proof fn law_case_is_folded(a: Seq<char>, b: Seq<char>)
    requires
        same_but_case(a, b),
    ensures
        uppercase(a) == uppercase(b),
        lowercase(a) == lowercase(b),
{
    assert(uppercase(a) =~= uppercase(b));
    assert forall|i: int| 0 <= i < a.len() implies lower_char(a[i]) == lower_char(b[i]) by {
        assert(upper_char(a[i]) == upper_char(b[i]));
    }
    assert(lowercase(a) =~= lowercase(b));
}

/// The result of `String::from_utf8_lossy`: the text that bytes encode, each malformed
/// part replaced by U+FFFD.
pub uninterp spec fn lossy_text(bytes: Seq<u8>) -> Seq<char>;

/// Calls `str::to_uppercase`. Claims that in an ASCII text the letters from `a` to `z` become
/// those from `A` to `Z` and all else stays, and that the result for any other text depends on
/// the text alone.
#[verifier::external_body]
pub(crate) fn to_uppercase(s: &str) -> (upper: String)
    ensures
        upper@ == (if is_ascii_chars(s@) {
            s@.map_values(|c: char| upper_char(c))
        } else {
            wide_uppercase(s@)
        }),
{
    s.to_uppercase()
}

/// Calls `str::to_lowercase`. Claims that in an ASCII text the letters from `A` to `Z` become
/// those from `a` to `z` and all else stays, and that the result for any other text depends on
/// the text alone.
#[verifier::external_body]
pub(crate) fn to_lowercase(s: &str) -> (lower: String)
    ensures
        lower@ == (if is_ascii_chars(s@) {
            s@.map_values(|c: char| lower_char(c))
        } else {
            wide_lowercase(s@)
        }),
{
    s.to_lowercase()
}

/// Calls `String::from_utf8`. Claims that it accepts exactly the well-formed UTF-8
/// sequences and that the string it gives has those bytes as its encoding.
#[verifier::external_body]
pub(crate) fn utf8_text(bytes: Vec<u8>) -> (text: Option<String>)
    ensures
        text is Some <==> valid_utf8(bytes@),
        text is Some ==> encode_utf8(text->Some_0@) == bytes@,
{
    String::from_utf8(bytes).ok()
}

/// Calls `String::from_utf8_lossy`. Claims that the result depends on the bytes alone and
/// that well-formed UTF-8 is decoded unchanged.
#[verifier::external_body]
pub(crate) fn utf8_lossy_text(bytes: &Vec<u8>) -> (text: String)
    ensures
        text@ == lossy_text(bytes@),
        valid_utf8(bytes@) ==> encode_utf8(text@) == bytes@,
{
    String::from_utf8_lossy(bytes).into_owned()
}

/// The text that `bytes` encode in UTF-8, and the empty text where they are malformed.
pub open spec fn text_or_empty(bytes: Seq<u8>) -> Seq<char> {
    if valid_utf8(bytes) {
        decode_utf8(bytes)
    } else {
        Seq::<char>::empty()
    }
}

/// Decodes `bytes`; malformed input gives the empty text.
pub fn decode_or_empty(bytes: Vec<u8>) -> (text: String)
    ensures
        text@ == text_or_empty(bytes@),
{
    match utf8_text(bytes) {
        Some(text) => {
            proof {
                encode_utf8_decode_utf8(text@);
            }
            text
        },
        None => String::new(),
    }
}

/// In an ASCII text the letters from `a` to `z` change places with those from `A` to `Z`, one for
/// one, and every other character stays.
pub proof fn law_letters_change_case(s: Seq<char>, i: int, k: int)
    requires
        is_ascii_chars(s),
        0 <= i < s.len(),
        0 <= k < 26,
    ensures
        uppercase(s).len() == s.len(),
        lowercase(s).len() == s.len(),
        ({
            let small = "abcdefghijklmnopqrstuvwxyz"@;
            let capital = "ABCDEFGHIJKLMNOPQRSTUVWXYZ"@;
            &&& s[i] == small[k] ==> uppercase(s)[i] == capital[k]
            &&& s[i] == capital[k] ==> lowercase(s)[i] == small[k]
            &&& !small.contains(s[i]) ==> uppercase(s)[i] == s[i]
            &&& !capital.contains(s[i]) ==> lowercase(s)[i] == s[i]
        }),
{
    reveal_strlit("abcdefghijklmnopqrstuvwxyz");
    reveal_strlit("ABCDEFGHIJKLMNOPQRSTUVWXYZ");
    let small = "abcdefghijklmnopqrstuvwxyz"@;
    let capital = "ABCDEFGHIJKLMNOPQRSTUVWXYZ"@;
    assert(forall|j: int| 0 <= j < 26 ==> #[trigger] small[j] as int == 97 + j);
    assert(forall|j: int| 0 <= j < 26 ==> #[trigger] capital[j] as int == 65 + j);
    let c = s[i];
    if 'a' <= c <= 'z' {
        let j = c as int - 97;
        assert(small[j] as int == 97 + j);
        assert(small[j] == c);
    }
    if 'A' <= c <= 'Z' {
        let j = c as int - 65;
        assert(capital[j] as int == 65 + j);
        assert(capital[j] == c);
    }
    assert(small[k] as int == 97 + k);
    assert(capital[k] as int == 65 + k);
}

/// A text comes back from its bytes, and bytes that are no text give the empty one.
pub proof fn law_text_comes_back(text: Seq<char>, bytes: Seq<u8>)
    ensures
        text_or_empty(encode_utf8(text)) == text,
        !valid_utf8(bytes) ==> text_or_empty(bytes) == Seq::<char>::empty(),
{
    encode_utf8_decode_utf8(text);
    encode_utf8_valid_utf8(text);
}

} // verus!
