//! The only place where the library touches outside crates. Every function
//! here is an `external_body` wrapper around one outside call; its contract is
//! what the rest of the crate is verified against. Results that are functions
//! of the arguments alone but have no short description are given names
//! (`uninterp` spec functions) that the wrappers' contracts apply.

use vstd::prelude::*;

verus! {

/// What parsing `s` as JSON and re-rendering it compactly yields: the compact
/// rendering if `s` is valid JSON, nothing otherwise.
pub uninterp spec fn json_reparse(s: Seq<char>) -> Option<Seq<char>>;

/// Relies on serde_json::from_str and serde_json::to_string: a JSON document
/// parses to a value that re-renders as compact JSON, and both steps depend on
/// the input text alone.
#[verifier::external_body]
pub fn try_parse_compact(s: &str) -> (r: Option<String>)
    ensures
        match r {
            Some(t) => json_reparse(s@) == Option::Some(t@),
            None => json_reparse(s@) is None,
        },
{
    match serde_json::from_str::<serde_json::Value>(s) {
        Ok(v) => serde_json::to_string(&v).ok(),
        Err(_) => None,
    }
}

/// The string field named `key` at the top level of the JSON document `doc`,
/// if `doc` parses and has one.
pub uninterp spec fn json_str_field(doc: Seq<char>, key: Seq<char>) -> Option<Seq<char>>;

/// Relies on serde_json::from_str and serde_json::Value::get: top-level field
/// lookup in a JSON document, a function of the document and key alone.
#[verifier::external_body]
pub fn json_field_str(doc: &str, key: &str) -> (r: Option<String>)
    ensures
        match r {
            Some(t) => json_str_field(doc@, key@) == Option::Some(t@),
            None => json_str_field(doc@, key@) is None,
        },
{
    let v: serde_json::Value = match serde_json::from_str(doc) {
        Ok(v) => v,
        Err(_) => return None,
    };
    match v.get(key) {
        Some(f) => f.as_str().map(|s| s.to_string()),
        None => None,
    }
}

/// The unsigned-integer field named `key` at the top level of `doc`, if any.
pub uninterp spec fn json_u64_field(doc: Seq<char>, key: Seq<char>) -> Option<u64>;

/// Relies on serde_json::from_str and serde_json::Value::as_u64.
#[verifier::external_body]
pub fn json_field_u64(doc: &str, key: &str) -> (r: Option<u64>)
    ensures
        r == json_u64_field(doc@, key@),
{
    let v: serde_json::Value = match serde_json::from_str(doc) {
        Ok(v) => v,
        Err(_) => return None,
    };
    match v.get(key) {
        Some(f) => f.as_u64(),
        None => None,
    }
}

/// The text of `doc` when `doc` is a JSON string literal, nothing otherwise.
pub uninterp spec fn json_text_content(doc: Seq<char>) -> Option<Seq<char>>;

/// Relies on serde_json::from_str and serde_json::Value::as_str: decoding a
/// JSON string literal to its character content.
#[verifier::external_body]
pub fn json_as_text(doc: &str) -> (r: Option<String>)
    ensures
        match r {
            Some(t) => json_text_content(doc@) == Option::Some(t@),
            None => json_text_content(doc@) is None,
        },
{
    let v: serde_json::Value = match serde_json::from_str(doc) {
        Ok(v) => v,
        Err(_) => return None,
    };
    v.as_str().map(|s| s.to_string())
}

/// The sentence-sensitive chunking of `s` with a target chunk size of 250
/// characters, in text order.
pub uninterp spec fn chunks_of(s: Seq<char>) -> Seq<Seq<char>>;

/// Relies on text_splitter::TextSplitter::chunks with a capacity of 250: the
/// chunking depends on the text alone.
#[verifier::external_body]
pub fn split_chunks(s: &str) -> (r: Vec<String>)
    ensures
        r.deep_view() == chunks_of(s@),
{
    let splitter = text_splitter::TextSplitter::new(250);
    splitter.chunks(s).map(|c| c.to_string()).collect()
}

/// The Unicode lowercasing of `s`.
pub uninterp spec fn lower_of(s: Seq<char>) -> Seq<char>;

/// Relies on str::to_lowercase: the result depends on the characters alone,
/// and an empty string stays empty.
#[verifier::external_body]
pub fn to_lower(s: &str) -> (r: String)
    ensures
        r@ == lower_of(s@),
        s@.len() == 0 ==> r@.len() == 0,
{
    s.to_lowercase()
}

/// The Unicode uppercasing of `s`.
pub uninterp spec fn upper_of(s: Seq<char>) -> Seq<char>;

/// Relies on str::to_uppercase: the result depends on the characters alone,
/// and an empty string stays empty.
#[verifier::external_body]
pub fn to_upper(s: &str) -> (r: String)
    ensures
        r@ == upper_of(s@),
        s@.len() == 0 ==> r@.len() == 0,
{
    s.to_uppercase()
}

/// The standard-alphabet base64 decoding of `s`, if `s` is valid base64.
pub uninterp spec fn b64_standard_of(s: Seq<char>) -> Option<Seq<u8>>;

/// Relies on base64's STANDARD engine decode: the decoding is a function of
/// the input text alone.
#[verifier::external_body]
pub fn b64_decode(s: &str) -> (r: Option<Vec<u8>>)
    ensures
        match r {
            Some(b) => b64_standard_of(s@) == Option::Some(b@),
            None => b64_standard_of(s@) is None,
        },
{
    base64::Engine::decode(&base64::engine::general_purpose::STANDARD, s.as_bytes()).ok()
}

/// The lossy UTF-8 decoding of `b` (invalid sequences become replacement
/// characters).
pub uninterp spec fn utf8_lossy_of(b: Seq<u8>) -> Seq<char>;

/// Relies on String::from_utf8_lossy: the decoding depends on the bytes alone.
#[verifier::external_body]
pub fn utf8_lossy(b: &Vec<u8>) -> (r: String)
    ensures
        r@ == utf8_lossy_of(b@),
{
    String::from_utf8_lossy(b).to_string()
}

/// Relies on rand::random_range over `0..n`: whatever is drawn lies below `n`.
#[verifier::external_body]
pub fn random_below(n: usize) -> (r: usize)
    requires
        n > 0,
    ensures
        r < n,
{
    rand::random_range(0..n)
}

} // verus!
