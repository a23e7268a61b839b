//! Identifiers in UUID form.

use vstd::prelude::*;
use vstd::utf8::*;

use crate::text::ascii_lowered;

verus! {

/// Whether `c` is a hexadecimal digit.
pub open spec fn is_hex(c: char) -> bool {
    ('0' <= c && c <= '9') || ('a' <= c && c <= 'f') || ('A' <= c && c <= 'F')
}

/// Whether `c` is a hexadecimal digit in lower case.
pub open spec fn is_lower_hex(c: char) -> bool {
    ('0' <= c && c <= '9') || ('a' <= c && c <= 'f')
}

/// Where the hyphens of a UUID stand.
pub open spec fn is_hyphen_place(i: int) -> bool {
    i == 8 || i == 13 || i == 18 || i == 23
}

/// 32 hexadecimal digits.
pub open spec fn is_simple_uuid(s: Seq<char>) -> bool {
    s.len() == 32 && forall|i: int| 0 <= i < 32 ==> is_hex(#[trigger] s[i])
}

/// 32 hexadecimal digits in groups of 8, 4, 4, 4 and 12, with hyphens between.
pub open spec fn is_hyphenated_uuid(s: Seq<char>) -> bool {
    s.len() == 36 && forall|i: int|
        0 <= i < 36 ==> if is_hyphen_place(i) {
            #[trigger] s[i] == '-'
        } else {
            is_hex(s[i])
        }
}

/// The four forms of a UUID: plain digits, with hyphens, that in braces, and that
/// behind `urn:uuid:`.
pub open spec fn is_uuid_text(s: Seq<char>) -> bool {
    ||| is_simple_uuid(s)
    ||| is_hyphenated_uuid(s)
    ||| s.len() == 38 && s[0] == '{' && s[37] == '}' && is_hyphenated_uuid(s.subrange(1, 37))
    ||| s.len() == 45 && ascii_lowered(s.take(9)) == "urn:uuid:"@ && is_hyphenated_uuid(s.skip(9))
}

/// `uuid::Uuid::parse_str`, asked only whether it succeeds: it does exactly on the
/// four forms of [`is_uuid_text`].
#[verifier::external_body]
pub(crate) fn is_uuid(s: &str) -> (r: bool)
    ensures
        r == is_uuid_text(s@),
{
    uuid::Uuid::parse_str(s).is_ok()
}

/// The text of a random UUID: lower case, with hyphens, version 4.
pub open spec fn is_random_uuid(s: Seq<char>) -> bool {
    &&& s.len() == 36
    &&& forall|i: int|
        0 <= i < 36 ==> if is_hyphen_place(i) {
            #[trigger] s[i] == '-'
        } else {
            is_lower_hex(s[i])
        }
    &&& s[14] == '4'
}

/// `uuid::Uuid::new_v4`, as text. Which of the version 4 UUIDs it is, is left to
/// chance; that two of them differ is not claimed.
#[verifier::external_body]
pub(crate) fn new_uuid() -> (r: String)
    ensures
        is_random_uuid(r@),
{
    uuid::Uuid::new_v4().to_string()
}

/// A random UUID has one of the forms that are accepted, in 36 bytes.
pub proof fn law_random_uuid_accepted(s: Seq<char>)
    requires
        is_random_uuid(s),
    ensures
        is_uuid_text(s),
        encode_utf8(s).len() == 36,
{
    assert forall|i: int| 0 <= i < 36 implies (if is_hyphen_place(i) {
        #[trigger] s[i] == '-'
    } else {
        is_hex(s[i])
    }) by {
    }
    assert(is_ascii_chars(s)) by {
        assert forall|i: int| 0 <= i < s.len() implies '\0' <= #[trigger] s[i] <= '\u{7f}' by {
            assert(is_hyphen_place(i) || is_lower_hex(s[i]));
        }
    }
    is_ascii_chars_encode_utf8(s);
}

} // verus!
