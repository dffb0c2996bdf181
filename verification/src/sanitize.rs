//! Text assembly: compose `title: description` with placeholders for absent
//! fields, strip all HTML through the sanitizer, decode the entities its
//! serializer re-encodes, and finally replace `#` by a space.

use vstd::prelude::*;
use vstd::string::StringExecFns;
use crate::entities::{decode_entities, decode_entities_spec, lemma_decode_no_angles};
use crate::text::{
    lemma_strip_anchor_no_angles,
    lemma_strip_anchor_no_hash,
    strip_anchor,
    strip_anchor_spec,
};

verus! {

/// The raw text composed from an item's fields: `title: description`, with
/// the fixed placeholders where a field is absent.
pub open spec fn raw_text_spec(title: Option<Seq<char>>, description: Option<Seq<char>>) -> Seq<
    char,
> {
    (match title {
        Some(t) => t,
        None => "[EMPTY TITLE]"@,
    }) + ": "@ + (match description {
        Some(d) => d,
        None => "[EMPTY DESCRIPTION]"@,
    })
}

/// What the HTML sanitizer returns on a given text, with every tag stripped:
/// a function of the text alone.
pub uninterp spec fn clean_of(s: Seq<char>) -> Seq<char>;

/// Relies on `ammonia::Builder::clean` with an empty tag allow-list: the
/// result is the document's text content alone, serialized with `<`, `>`, `&`
/// and U+00A0 re-encoded as entities, so it is a function of the input and
/// holds no literal `<` or `>`.
#[verifier::external_body]
fn clean_html(s: &str) -> (r: String)
    ensures
        r@ == clean_of(s@),
        !r@.contains('<'),
        !r@.contains('>'),
{
    let tags: std::collections::HashSet<&str> = std::collections::HashSet::new();
    ammonia::Builder::new().tags(tags).clean(s).to_string()
}

/// The cleaned text of an item: sanitized and entity-decoded.
pub open spec fn cleaned_text_spec(title: Option<Seq<char>>, description: Option<Seq<char>>) -> Seq<
    char,
> {
    decode_entities_spec(clean_of(raw_text_spec(title, description)))
}

/// The text handed to the translator: cleaned, with `#` replaced by a space.
pub open spec fn sanitized_text_spec(
    title: Option<Seq<char>>,
    description: Option<Seq<char>>,
) -> Seq<char> {
    strip_anchor_spec(cleaned_text_spec(title, description))
}

/// Compose `title: description`, substituting the placeholders.
pub fn compose_raw_text(title: &Option<String>, description: &Option<String>) -> (r: String)
    ensures
        r@ == raw_text_spec(
            match title {
                Some(t) => Some(t@),
                None => None,
            },
            match description {
                Some(d) => Some(d@),
                None => None,
            },
        ),
{
    let t: &str = match title {
        Some(t) => t.as_str(),
        None => "[EMPTY TITLE]",
    };
    let d: &str = match description {
        Some(d) => d.as_str(),
        None => "[EMPTY DESCRIPTION]",
    };
    let mut r = t.to_owned();
    r.append(": ");
    r.append(d);
    r
}

/// Clean an item's composed text: strip all HTML and decode entities.
pub fn cleaned_text(title: &Option<String>, description: &Option<String>) -> (r: String)
    ensures
        r@ == cleaned_text_spec(
            match title {
                Some(t) => Some(t@),
                None => None,
            },
            match description {
                Some(d) => Some(d@),
                None => None,
            },
        ),
        !r@.contains('<'),
        !r@.contains('>'),
{
    let raw = compose_raw_text(title, description);
    let cleaned = clean_html(raw.as_str());
    proof {
        lemma_decode_no_angles(cleaned@);
    }
    decode_entities(cleaned.as_str())
}

/// The sanitized text sent to the translator. Whatever the item holds, the
/// result is free of `<`, `>` and `#`.
pub fn sanitized_text(title: &Option<String>, description: &Option<String>) -> (r: String)
    ensures
        r@ == sanitized_text_spec(
            match title {
                Some(t) => Some(t@),
                None => None,
            },
            match description {
                Some(d) => Some(d@),
                None => None,
            },
        ),
        !r@.contains('<'),
        !r@.contains('>'),
        !r@.contains('#'),
{
    let cleaned = cleaned_text(title, description);
    proof {
        lemma_strip_anchor_no_angles(cleaned@);
        lemma_strip_anchor_no_hash(cleaned@);
    }
    strip_anchor(cleaned.as_str())
}

/// An absent title puts `[EMPTY TITLE]: ` in front of the composed text; an
/// absent description makes it end with `[EMPTY DESCRIPTION]`.
pub proof fn lemma_placeholder_insertion(title: Option<Seq<char>>, description: Option<Seq<char>>)
    ensures
        title is None ==> raw_text_spec(title, description).take(15) == "[EMPTY TITLE]: "@,
        description is None ==> raw_text_spec(title, description).skip(
            raw_text_spec(title, description).len() - 19,
        ) == "[EMPTY DESCRIPTION]"@,
{
    reveal_strlit("[EMPTY TITLE]");
    reveal_strlit("[EMPTY TITLE]: ");
    reveal_strlit("[EMPTY DESCRIPTION]");
    reveal_strlit(": ");
    if title is None {
        assert(raw_text_spec(title, description).take(15) =~= "[EMPTY TITLE]: "@);
    }
    if description is None {
        let r = raw_text_spec(title, description);
        assert(r.skip(r.len() - 19) =~= "[EMPTY DESCRIPTION]"@);
    }
}

} // verus!
