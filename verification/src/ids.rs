//! Identifiers: how a job id and a minted identity look, and when a name
//! counts as one.

use vstd::prelude::*;

verus! {

/// A hexadecimal digit of either case.
pub open spec fn is_hex_digit(c: char) -> bool {
    ('0' <= c && c <= '9') || ('a' <= c && c <= 'f') || ('A' <= c && c <= 'F')
}

/// A decimal digit or a hexadecimal letter of lower case.
pub open spec fn is_lower_hex_digit(c: char) -> bool {
    ('0' <= c && c <= '9') || ('a' <= c && c <= 'f')
}

/// Whether `i` is one of the four places of a hyphen in the 36-character
/// form.
pub open spec fn is_hyphen_place(i: int) -> bool {
    i == 8 || i == 13 || i == 18 || i == 23
}

/// The 36-character form: five groups of 8, 4, 4, 4 and 12 hexadecimal
/// digits, with a hyphen between two groups.
pub open spec fn is_hyphenated_id(s: Seq<char>) -> bool {
    &&& s.len() == 36
    &&& forall|i: int|
        0 <= i < 36 ==> if is_hyphen_place(i) {
            #[trigger] s[i] == '-'
        } else {
            is_hex_digit(s[i])
        }
}

/// The form in which ids are minted: hyphenated, with lower-case letters.
pub open spec fn is_canonical_id(s: Seq<char>) -> bool {
    &&& s.len() == 36
    &&& forall|i: int|
        0 <= i < 36 ==> if is_hyphen_place(i) {
            #[trigger] s[i] == '-'
        } else {
            is_lower_hex_digit(s[i])
        }
}

/// Whether `c` is the ASCII letter `lower`, in either case.
pub open spec fn is_letter_ignoring_case(c: char, lower: char) -> bool {
    c == lower || c as int + 32 == lower as int
}

/// The nine characters `urn:uuid:`, with letters of either case.
pub open spec fn is_urn_prefix(s: Seq<char>) -> bool {
    &&& s.len() == 9
    &&& is_letter_ignoring_case(s[0], 'u')
    &&& is_letter_ignoring_case(s[1], 'r')
    &&& is_letter_ignoring_case(s[2], 'n')
    &&& s[3] == ':'
    &&& is_letter_ignoring_case(s[4], 'u')
    &&& is_letter_ignoring_case(s[5], 'u')
    &&& is_letter_ignoring_case(s[6], 'i')
    &&& is_letter_ignoring_case(s[7], 'd')
    &&& s[8] == ':'
}

/// The texts that are read as an id: 32 hexadecimal digits; the hyphenated
/// form; that form in braces; that form after `urn:uuid:`.
pub open spec fn is_id_text(s: Seq<char>) -> bool {
    ||| s.len() == 32 && forall|i: int| 0 <= i < 32 ==> is_hex_digit(#[trigger] s[i])
    ||| is_hyphenated_id(s)
    ||| s.len() == 38 && s[0] == '{' && s[37] == '}' && is_hyphenated_id(s.subrange(1, 37))
    ||| s.len() == 45 && is_urn_prefix(s.subrange(0, 9)) && is_hyphenated_id(s.subrange(9, 45))
}

/// Whether `text` parses as a UUID.
///
/// Trusted: `uuid::Uuid::parse_str` accepts exactly four shapes, told apart
/// by the length of the input: 32 hexadecimal digits; 36 characters with
/// hyphens at places 8, 13, 18 and 23 and hexadecimal digits elsewhere; that
/// form between `{` and `}`; that form after `urn:uuid:` in any case. Every
/// other input is an error. Only whether parsing succeeded is kept.
#[verifier::external_body]
pub(crate) fn parses_as_uuid(text: &str) -> (ok: bool)
    ensures
        ok == is_id_text(text@),
{
    uuid::Uuid::parse_str(text).is_ok()
}

/// A new random UUID as text.
///
/// Trusted: `uuid::Uuid::new_v4` draws a random version-4 UUID, and its
/// `Display` writes the hyphenated form with lower-case digits. Which id
/// comes out is left open.
#[verifier::external_body]
pub(crate) fn random_uuid_text() -> (text: String)
    ensures
        is_canonical_id(text@),
{
    uuid::Uuid::new_v4().to_string()
}

/// Whether `name` has the form of a job id.
pub fn is_job_id(name: &str) -> (ok: bool)
    ensures
        ok == is_id_text(name@),
{
    parses_as_uuid(name)
}

/// A fresh job id, in canonical form.
pub fn new_job_id() -> (id: String)
    ensures
        is_canonical_id(id@),
        is_id_text(id@),
{
    let id = random_uuid_text();
    proof {
        lemma_canonical_id_is_id_text(id@);
    }
    id
}

/// Every id in canonical form is read back as an id.
pub proof fn lemma_canonical_id_is_id_text(s: Seq<char>)
    requires
        is_canonical_id(s),
    ensures
        is_hyphenated_id(s),
        is_id_text(s),
{
    assert forall|i: int| 0 <= i < 36 implies if is_hyphen_place(i) {
        #[trigger] s[i] == '-'
    } else {
        is_hex_digit(s[i])
    } by {
        if !is_hyphen_place(i) {
            assert(is_lower_hex_digit(s[i]));
        }
    }
}

} // verus!
