//! The description of a node, as it is kept in an extended attribute.
//!
//! The attribute is read and written by the caller. Here is what its value
//! means: a description is stored as its UTF-8 bytes, and a value that is
//! not UTF-8 is no description.

use crate::text::text_of;
use vstd::prelude::*;
use vstd::string::*;
use vstd::utf8::{decode_utf8, encode_utf8, encode_utf8_decode_utf8, encode_utf8_valid_utf8, valid_utf8};

verus! {

/// The name of the extended attribute that holds the description.
pub const XPLORE_DESC_KEY: &'static str = "user.xplore.description";

/// The description that the value of the attribute stands for.
pub open spec fn described(value: Option<Seq<u8>>) -> Option<Seq<char>> {
    match value {
        Some(bytes) => if valid_utf8(bytes) {
            Some(decode_utf8(bytes))
        } else {
            None
        },
        None => None,
    }
}

/// The bytes behind an optional byte vector.
pub open spec fn bytes_of(value: Option<Vec<u8>>) -> Option<Seq<u8>> {
    match value {
        Some(bytes) => Some(bytes@),
        None => None,
    }
}

/// `String::from_utf8`: the text that the bytes encode, or nothing if they
/// are not valid UTF-8.
#[verifier::external_body]
fn text_from_utf8(bytes: Vec<u8>) -> (r: Option<String>)
    ensures
        text_of(r) == described(Some(bytes@)),
{
    String::from_utf8(bytes).ok()
}

/// The description in the value of the attribute; `None` for a node without
/// the attribute and for a value that is not text.
pub fn description_from_attribute(value: Option<Vec<u8>>) -> (r: Option<String>)
    ensures
        text_of(r) == described(bytes_of(value)),
{
    match value {
        Some(bytes) => text_from_utf8(bytes),
        None => None,
    }
}

/// The value of the attribute for a description.
pub fn description_to_attribute(description: &str) -> (r: Vec<u8>)
    ensures
        r@ == encode_utf8(description@),
{
    description.as_bytes_vec()
}

/// A description that was stored is read back as it was.
pub proof fn lemma_description_round_trip(description: Seq<char>)
    ensures
        described(Some(encode_utf8(description))) == Some(description),
{
    encode_utf8_valid_utf8(description);
    encode_utf8_decode_utf8(description);
}

/// Whether descriptions can be stored for `path`. Every path is taken to
/// allow it; where the filesystem does not, storing fails.
pub fn is_xattr_supported(path: &str) -> (r: bool)
    ensures
        r,
{
    true
}

} // verus!
