//! The calls that this crate makes into other crates, each with the contract
//! that the rest of the crate relies on.

use vstd::prelude::*;
use vstd::utf8::{decode_utf8, valid_utf8};

verus! {

#[verifier::external_type_specification]
#[verifier::external_body]
pub struct ExJsonError(serde_json::Error);

#[verifier::external_type_specification]
#[verifier::external_body]
pub struct ExDecodeError(base64::DecodeError);

/// The entries of the JSON object written in `text`, in key order, where each
/// value is a string or null; `None` where `text` is no such object.
pub uninterp spec fn json_string_fields(text: Seq<char>) -> Option<
    Seq<(Seq<char>, Option<Seq<char>>)>,
>;

/// The bytes that `text` encodes in the standard base64 alphabet; `None`
/// where `text` is no such encoding.
pub uninterp spec fn base64_decoded(text: Seq<char>) -> Option<Seq<u8>>;

/// The view of a list of JSON object entries.
pub open spec fn fields_view(v: Seq<(String, Option<String>)>) -> Seq<
    (Seq<char>, Option<Seq<char>>),
> {
    v.map_values(
        |e: (String, Option<String>)|
            (
                e.0@,
                match e.1 {
                    Some(s) => Some(s@),
                    None => None,
                },
            ),
    )
}

/// Relies on `serde_json::from_str`, read into a `BTreeMap<String, Option<String>>`:
/// it accepts exactly the JSON objects whose values are strings or null, and
/// the map hands its entries out in key order.
#[verifier::external_body]
pub(crate) fn parse_string_object(text: &str) -> (r: Result<
    Vec<(String, Option<String>)>,
    serde_json::Error,
>)
    ensures
        match r {
            Ok(v) => json_string_fields(text@) == Some(fields_view(v@)),
            Err(_) => json_string_fields(text@) is None,
        },
{
    serde_json::from_str::<std::collections::BTreeMap<String, Option<String>>>(text).map(
        |m| m.into_iter().collect(),
    )
}

/// Relies on `base64::decode`, which decodes the standard alphabet, padded or not.
#[verifier::external_body]
pub(crate) fn decode_base64(text: &str) -> (r: Result<Vec<u8>, base64::DecodeError>)
    ensures
        match r {
            Ok(v) => base64_decoded(text@) == Some(v@),
            Err(_) => base64_decoded(text@) is None,
        },
{
    base64::decode(text)
}

/// Relies on `String::from_utf8`: it accepts exactly the valid UTF-8 byte
/// strings and decodes them.
#[verifier::external_body]
pub(crate) fn string_from_utf8(bytes: Vec<u8>) -> (r: Option<String>)
    ensures
        match r {
            Some(s) => valid_utf8(bytes@) && s@ == decode_utf8(bytes@),
            None => !valid_utf8(bytes@),
        },
{
    String::from_utf8(bytes).ok()
}

/// The path prefix of an NPM user verification request.
pub open spec fn couch_user_prefix() -> Seq<char> {
    seq![
        '-', '/', 'u', 's', 'e', 'r', '/', 'o', 'r', 'g', '.', 'c', 'o', 'u', 'c', 'h', 'd', 'b',
        '.', 'u', 's', 'e', 'r', ':',
    ]
}

pub open spec fn is_ascii_alpha(c: char) -> bool {
    ('a' <= c && c <= 'z') || ('A' <= c && c <= 'Z')
}

/// Whether `path` holds the user verification prefix followed by an ASCII letter.
pub open spec fn names_couch_user(path: Seq<char>) -> bool {
    exists|i: int|
        0 <= i && i + couch_user_prefix().len() < path.len() && #[trigger] path.subrange(
            i,
            i + couch_user_prefix().len(),
        ) == couch_user_prefix() && is_ascii_alpha(path[i + couch_user_prefix().len()])
}

/// Relies on `regex::Regex::is_match` for the pattern
/// `-/user/org\.couchdb\.user:[a-zA-Z]+`, which holds no anchor: it matches
/// where the prefix, followed by one ASCII letter, stands anywhere in `path`.
/// The pattern is valid, so `Regex::new` does not fail.
#[verifier::external_body]
pub(crate) fn couch_user_path_matches(path: &str) -> (r: bool)
    ensures
        r == names_couch_user(path@),
{
    regex::Regex::new(r"-/user/org\.couchdb\.user:[a-zA-Z]+").unwrap().is_match(path)
}

} // verus!
