//! Decoding of the translation service's JSON reply into plain values: a
//! numeric `code` and an ordered list `text` of translated strings.

use vstd::prelude::*;

verus! {

/// The decoded reply. Only the first element of `texts` is ever emitted; a
/// reply whose `texts` is empty has the wrong shape and the item is skipped.
pub struct TranslationReply {
    pub code: u64,
    pub texts: Vec<String>,
}

/// Why an item's translation was not emitted.
#[derive(Clone, Copy, PartialEq, Eq, Structural, Debug)]
pub enum TranslateError {
    /// The reply body was not JSON of the expected shape.
    Shape,
    /// The reply carried an empty `text` list.
    EmptyText,
}

/// What decoding a reply body yields: the `code` and `text` fields of the
/// body parsed as JSON, a function of the body alone; `None` where the body
/// is not a JSON object with a non-negative integer `code` and an array
/// `text` of strings.
pub uninterp spec fn reply_of(body: Seq<char>) -> Option<(u64, Seq<Seq<char>>)>;

/// Relies on `serde_json::from_str::<Value>` and the `Value` accessors
/// `get`, `as_u64`, `as_array` and `as_str`: parsing is a function of the
/// body alone, and the walk hands the two fields back as plain values,
/// `None` at the first shape mismatch.
#[verifier::external_body]
fn decode_reply_fields(body: &str) -> (r: Option<(u64, Vec<String>)>)
    ensures
        (match r {
            Some(p) => reply_of(body@) == Some((p.0, p.1@.map_values(|s: String| s@))),
            None => reply_of(body@) is None,
        }),
{
    let v: serde_json::Value = serde_json::from_str(body).ok()?;
    let code = v.get("code")?.as_u64()?;
    let texts = v.get("text")?.as_array()?.iter().map(|t| t.as_str().map(str::to_owned)).collect::<
        Option<Vec<String>>,
    >()?;
    Some((code, texts))
}

/// Decode a reply body: `Ok` exactly when the body is a JSON object with a
/// non-negative integer `code` and an array `text` of strings, and then the
/// decoded fields are the body's; any other body is a shape error.
pub fn decode_translation(body: &str) -> (r: Result<TranslationReply, TranslateError>)
    ensures
        r is Ok <==> reply_of(body@) is Some,
        (match r {
            Ok(rep) => reply_of(body@) == Some((rep.code, rep.texts@.map_values(|s: String| s@))),
            Err(e) => e == TranslateError::Shape,
        }),
{
    match decode_reply_fields(body) {
        Some((code, texts)) => Ok(TranslationReply { code, texts }),
        None => Err(TranslateError::Shape),
    }
}

} // verus!
