//! The identity resolver: which client a request belongs to, and whether it
//! carries the bypass credential.

use vstd::prelude::*;
use vstd::string::StringExecFns;
use crate::ids::{is_canonical_id, is_hyphen_place, is_lower_hex_digit, random_uuid_text};
use crate::text::{
    chars_of, first_index_of, lemma_first_index_of_is, same_text, string_of_range, text_of, trim,
    trim_range, trimmed,
};

verus! {

/// The cookie that carries the identity.
pub const BROWSER_ID_COOKIE: &'static str = "vs_bid";

/// The request header that carries the bypass credential.
pub const BYPASS_KEY_HEADER: &'static str = "x-vs-bypass-key";

/// What follows the identity in the directive that sets the cookie: valid
/// on every path, for two years, same-site lax, hidden from scripts.
pub const COOKIE_ATTRIBUTES: &'static str = "; Path=/; Max-Age=63072000; SameSite=Lax; HttpOnly";

/// The shortest identity that is accepted.
pub const MIN_IDENTITY_LEN: usize = 16;

/// The longest identity that is accepted.
pub const MAX_IDENTITY_LEN: usize = 128;

/// The alphabet of an identity: ASCII letters, digits and the hyphen.
pub open spec fn is_identity_char(c: char) -> bool {
    ('0' <= c && c <= '9') || ('a' <= c && c <= 'z') || ('A' <= c && c <= 'Z') || c == '-'
}

/// The shape an identity must have to be taken from a cookie: 16 to 128
/// characters of the identity alphabet.
pub open spec fn is_reasonable_text(s: Seq<char>) -> bool {
    &&& MIN_IDENTITY_LEN <= s.len() <= MAX_IDENTITY_LEN
    &&& forall|i: int| 0 <= i < s.len() ==> is_identity_char(#[trigger] s[i])
}

/// `s` cut at its first `sep`: what stands before it and what stands after.
pub open spec fn split_once(s: Seq<char>, sep: char) -> Option<(Seq<char>, Seq<char>)> {
    let at = first_index_of(s, sep);
    if 0 <= at < s.len() {
        Some((s.subrange(0, at), s.subrange(at + 1, s.len() as int)))
    } else {
        None
    }
}

/// The value of the cookie `name` in a `Cookie` header.
///
/// The header is a list of parts separated by `;`. A part, trimmed, that
/// holds a `=` is a key and a value separated by its first `=`. The value of
/// the first part whose key is `name` is the answer. A part with another
/// key, or without `=`, is passed over.
pub open spec fn cookie_value(cookie: Seq<char>, name: Seq<char>) -> Option<Seq<char>>
    decreases cookie.len(),
{
    let end = first_index_of(cookie, ';');
    if 0 <= end <= cookie.len() {
        let part = split_once(trimmed(cookie.subrange(0, end)), '=');
        if part is Some && part.unwrap().0 == name {
            Some(part.unwrap().1)
        } else if end < cookie.len() {
            cookie_value(cookie.subrange(end + 1, cookie.len() as int), name)
        } else {
            None
        }
    } else {
        None
    }
}

/// The identity that a request brings along: the value of the identity
/// cookie, if the header has one of the required shape.
pub open spec fn presented_identity(cookie_header: Option<Seq<char>>) -> Option<Seq<char>> {
    match cookie_header {
        Some(header) => match cookie_value(header, BROWSER_ID_COOKIE@) {
            Some(value) => if is_reasonable_text(value) {
                Some(value)
            } else {
                None
            },
            None => None,
        },
        None => None,
    }
}

/// The directive that sets `identity` as the identity cookie.
pub open spec fn set_cookie_text(identity: Seq<char>) -> Seq<char> {
    BROWSER_ID_COOKIE@ + seq!['='] + identity + COOKIE_ATTRIBUTES@
}

/// Whether a request presents the configured bypass credential: one is
/// configured, the header is there, and its trimmed value is the secret.
pub open spec fn bypass_granted(actual: Option<Seq<char>>, expected: Option<Seq<char>>) -> bool {
    match (expected, actual) {
        (Some(secret), Some(given)) => trimmed(given) == secret,
        _ => false,
    }
}

/// Whether `c` belongs to the identity alphabet.
fn is_identity_character(c: char) -> (ok: bool)
    ensures
        ok == is_identity_char(c),
{
    ('0' <= c && c <= '9') || ('a' <= c && c <= 'z') || ('A' <= c && c <= 'Z') || c == '-'
}

/// Whether `value` has the shape of an identity.
pub fn is_reasonable_cookie_value(value: &str) -> (ok: bool)
    ensures
        ok == is_reasonable_text(value@),
{
    let chars = chars_of(value);
    if chars.len() < MIN_IDENTITY_LEN || chars.len() > MAX_IDENTITY_LEN {
        return false;
    }
    let mut i: usize = 0;
    while i < chars.len()
        invariant
            chars@ == value@,
            i <= chars@.len(),
            forall|k: int| 0 <= k < i ==> is_identity_char(#[trigger] chars@[k]),
        decreases chars@.len() - i,
    {
        if !is_identity_character(chars[i]) {
            return false;
        }
        i += 1;
    }
    true
}

/// The index of the first `c` in `chars[from..to]`, or `to` if there is
/// none.
fn find_char(chars: &Vec<char>, from: usize, to: usize, c: char) -> (at: usize)
    requires
        from <= to <= chars@.len(),
    ensures
        from <= at <= to,
        at - from == first_index_of(chars@.subrange(from as int, to as int), c),
{
    let mut at: usize = from;
    while at < to && chars[at] != c
        invariant
            from <= at <= to <= chars@.len(),
            forall|k: int| from <= k < at ==> chars@[k] != c,
        decreases to - at,
    {
        at += 1;
    }
    proof {
        lemma_first_index_of_is(chars@.subrange(from as int, to as int), c, at - from);
    }
    at
}

/// The value of the cookie `name` in the `Cookie` header `cookie`.
pub fn get_cookie_value(cookie: &str, name: &str) -> (value: Option<String>)
    ensures
        match value {
            Some(v) => cookie_value(cookie@, name@) == Some(v@),
            None => cookie_value(cookie@, name@) is None,
        },
{
    let chars = chars_of(cookie);
    let len = chars.len();
    let mut pos: usize = 0;
    assert(chars@.subrange(0, len as int) == cookie@);
    loop
        invariant
            len == chars@.len(),
            pos <= len,
            cookie_value(cookie@, name@) == cookie_value(
                chars@.subrange(pos as int, len as int),
                name@,
            ),
        decreases len - pos,
    {
        let ghost rest = chars@.subrange(pos as int, len as int);
        let end = find_char(&chars, pos, len, ';');
        let (start, stop) = trim_range(&chars, pos, end);
        let mid = find_char(&chars, start, stop, '=');
        proof {
            assert(rest.subrange(0, end - pos) == chars@.subrange(pos as int, end as int));
            let part = chars@.subrange(start as int, stop as int);
            assert(part.subrange(0, mid - start) == chars@.subrange(start as int, mid as int));
            if mid < stop {
                assert(part.subrange(mid - start + 1, part.len() as int) == chars@.subrange(
                    mid + 1,
                    stop as int,
                ));
            }
            if end < len {
                assert(rest.subrange(end - pos + 1, rest.len() as int) == chars@.subrange(
                    end + 1,
                    len as int,
                ));
            }
        }
        if mid < stop {
            let key = string_of_range(&chars, start, mid);
            if same_text(key.as_str(), name) {
                return Some(string_of_range(&chars, mid + 1, stop));
            }
        }
        if end == len {
            return None;
        }
        pos = end + 1;
    }
}

/// The identity of a request, and the directive to set it where it is new.
///
/// An identity that the `Cookie` header presents in the required shape is
/// kept, and nothing is to be set. Otherwise a fresh identity is minted and
/// returned with the directive that sets it as the identity cookie; the
/// caller attaches the directive to whatever response it sends.
pub fn get_or_create_browser_id(cookie_header: Option<&str>) -> (resolved: (
    String,
    Option<String>,
))
    ensures
        match presented_identity(text_of(cookie_header)) {
            Some(identity) => resolved.0@ == identity && resolved.1 is None,
            None => {
                &&& is_canonical_id(resolved.0@)
                &&& resolved.1 matches Some(directive)
                &&& directive@ == set_cookie_text(resolved.0@)
            },
        },
{
    if let Some(header) = cookie_header {
        if let Some(existing) = get_cookie_value(header, BROWSER_ID_COOKIE) {
            if is_reasonable_cookie_value(existing.as_str()) {
                return (existing, None);
            }
        }
    }
    let browser_id = random_uuid_text();
    let directive = String::from_str(BROWSER_ID_COOKIE).concat("=").concat(
        browser_id.as_str(),
    ).concat(COOKIE_ATTRIBUTES);
    proof {
        reveal_strlit("=");
        assert("="@ == seq!['=']);
    }
    (browser_id, Some(directive))
}

/// Whether the request presents the configured bypass credential.
pub fn has_valid_bypass_key(actual: Option<&str>, expected: Option<&str>) -> (granted: bool)
    ensures
        granted == bypass_granted(text_of(actual), text_of(expected)),
{
    match expected {
        None => false,
        Some(secret) => match actual {
            None => false,
            Some(given) => {
                let given = trim(given);
                same_text(given.as_str(), secret)
            },
        },
    }
}

/// A minted identity has the shape that is accepted from a cookie, so the
/// client that sends it back keeps it.
pub proof fn lemma_minted_identity_is_accepted(identity: Seq<char>)
    requires
        is_canonical_id(identity),
    ensures
        is_reasonable_text(identity),
{
    assert forall|i: int| 0 <= i < identity.len() implies is_identity_char(
        #[trigger] identity[i],
    ) by {
        if is_hyphen_place(i) {
            assert(identity[i] == '-');
        } else {
            assert(is_lower_hex_digit(identity[i]));
        }
    }
}

/// A cookie value that is too short, too long or holds a character
/// outside the identity alphabet is never taken for the identity: the
/// request gets a fresh one.
pub proof fn lemma_malformed_identity_is_replaced(header: Seq<char>, value: Seq<char>)
    requires
        cookie_value(header, BROWSER_ID_COOKIE@) == Some(value),
        value.len() < MIN_IDENTITY_LEN || value.len() > MAX_IDENTITY_LEN || exists|i: int|
            0 <= i < value.len() && !is_identity_char(#[trigger] value[i]),
    ensures
        presented_identity(Some(header)) is None,
{
}

} // verus!
