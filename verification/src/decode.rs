//! Reading typed fields out of a JSON document.
//!
//! A record may arrive as an object, its fields by name, or as an array, its
//! fields by position. The words of a refusal are those `serde` uses.

use vstd::prelude::*;

use crate::digits::{decimal, render_decimal, render_signed, signed_decimal};
use crate::json::{text_view, Json, JsonView, Number, NumberView};

verus! {

/// A text as Rust's `{:?}` writes it: quoted and escaped.
pub uninterp spec fn debug_text(text: Seq<char>) -> Seq<char>;

/// `format!` with `{:?}` on a `str`: the text quoted and escaped.
#[verifier::external_body]
pub(crate) fn quote_debug(text: &str) -> (quoted: String)
    ensures
        quoted@ == debug_text(text@),
{
    format!("{text:?}")
}

/// What stood where something else was expected, in words.
pub open spec fn found_words(json: JsonView) -> Seq<char> {
    match json {
        JsonView::Null => "null"@,
        JsonView::Bool(b) => if b { "boolean `true`"@ } else { "boolean `false`"@ },
        JsonView::Number(NumberView::Unsigned(n)) => "integer `"@ + decimal(n as nat) + "`"@,
        JsonView::Number(NumberView::Negative(n)) => "integer `"@ + signed_decimal(n as int) + "`"@,
        JsonView::Number(NumberView::Float(text)) => "floating point `"@ + text + "`"@,
        JsonView::Text(s) => "string "@ + debug_text(s),
        JsonView::Array(_) => "sequence"@,
        JsonView::Object(_) => "map"@,
    }
}

/// The words of a refusal of a value of the wrong type.
pub open spec fn wrong_type_words(found: JsonView, expected: Seq<char>) -> Seq<char> {
    "invalid type: "@ + found_words(found) + ", expected "@ + expected
}

/// The words of a refusal for want of a field.
pub open spec fn missing_words(name: Seq<char>) -> Seq<char> {
    "missing field `"@ + name + "`"@
}

/// The words of a refusal of an array of the wrong length.
pub open spec fn length_words(length: nat, expected: Seq<char>) -> Seq<char> {
    "invalid length "@ + decimal(length) + ", expected "@ + expected
}

/// What stood where something else was expected, in words.
pub fn describe_found(json: &Json) -> (words: String)
    ensures
        words@ == found_words(json@),
{
    match json {
        Json::Null => "null".to_owned(),
        Json::Bool(b) => if *b { "boolean `true`".to_owned() } else { "boolean `false`".to_owned() },
        Json::Number(Number::Unsigned(n)) => "integer `".to_owned().concat(render_decimal(*n).as_str()).concat("`"),
        Json::Number(Number::Negative(n)) => "integer `".to_owned().concat(render_signed(*n).as_str()).concat("`"),
        Json::Number(Number::Float(text)) => "floating point `".to_owned().concat(text.as_str()).concat("`"),
        Json::Text(s) => "string ".to_owned().concat(quote_debug(s.as_str()).as_str()),
        Json::Array(_) => "sequence".to_owned(),
        Json::Object(_) => "map".to_owned(),
    }
}

/// The refusal of a value of the wrong type.
pub fn wrong_type(found: &Json, expected: &str) -> (words: String)
    ensures
        words@ == wrong_type_words(found@, expected@),
{
    "invalid type: ".to_owned().concat(describe_found(found).as_str()).concat(", expected ").concat(expected)
}

/// The refusal for want of a field.
pub fn missing(name: &str) -> (words: String)
    ensures
        words@ == missing_words(name@),
{
    "missing field `".to_owned().concat(name).concat("`")
}

/// The refusal of an array of the wrong length.
pub fn wrong_length(length: usize, expected: &str) -> (words: String)
    ensures
        words@ == length_words(length as nat, expected@),
{
    "invalid length ".to_owned().concat(render_decimal(length as u64).as_str()).concat(", expected ").concat(expected)
}

/// The field of a record: the member of that name, or the item at that position.
pub open spec fn field_view(json: JsonView, name: Seq<char>, position: int) -> Option<JsonView> {
    match json {
        JsonView::Object(_) => json.member(name),
        JsonView::Array(items) => if 0 <= position < items.len() { Some(items[position]) } else { None },
        _ => None,
    }
}

/// The field of a record: the member of that name, or the item at that position.
pub fn field<'a>(json: &'a Json, name: &str, position: usize) -> (value: Option<&'a Json>)
    ensures
        match value {
            Some(value) => field_view(json@, name@, position as int) == Some(value@),
            None => field_view(json@, name@, position as int) is None,
        },
{
    match json {
        Json::Object(_) => json.get(name),
        Json::Array(items) => if position < items.len() { Some(&items[position]) } else { None },
        _ => None,
    }
}

/// Why a document cannot be read as a record `what` of `size` fields, of which an
/// array may not leave out the first `needed`.
pub open spec fn record_refusal(json: JsonView, what: Seq<char>, needed: nat, size: nat) -> Option<
    Seq<char>,
> {
    match json {
        JsonView::Object(_) => None,
        JsonView::Array(items) => {
            if items.len() < needed {
                Some(
                    length_words(
                        items.len(),
                        "struct "@ + what + " with "@ + decimal(size) + " elements"@,
                    ),
                )
            } else {
                None
            }
        },
        _ => Some(wrong_type_words(json, "struct "@ + what)),
    }
}

/// Why an array is too long for a record of `size` fields.
pub open spec fn excess_refusal(json: JsonView, size: nat) -> Option<Seq<char>> {
    match json {
        JsonView::Array(items) => {
            if items.len() > size {
                Some(length_words(items.len(), "fewer elements in array"@))
            } else {
                None
            }
        },
        _ => None,
    }
}

/// Why a document cannot be read as a record.
pub fn refuse_record(json: &Json, what: &str, needed: usize, size: usize) -> (refusal: Option<
    String,
>)
    ensures
        text_view(refusal) == record_refusal(json@, what@, needed as nat, size as nat),
{
    match json {
        Json::Object(_) => None,
        Json::Array(items) => {
            if items.len() < needed {
                let expected = "struct ".to_owned().concat(what).concat(" with ").concat(
                    render_decimal(size as u64).as_str(),
                ).concat(" elements");
                Some(wrong_length(items.len(), expected.as_str()))
            } else {
                None
            }
        },
        _ => Some(wrong_type(json, "struct ".to_owned().concat(what).as_str())),
    }
}

/// Why an array is too long for a record of `size` fields.
pub fn refuse_excess(json: &Json, size: usize) -> (refusal: Option<String>)
    ensures
        text_view(refusal) == excess_refusal(json@, size as nat),
{
    match json {
        Json::Array(items) => {
            if items.len() > size {
                Some(wrong_length(items.len(), "fewer elements in array"))
            } else {
                None
            }
        },
        _ => None,
    }
}

/// A required string field.
pub open spec fn string_field(field: Option<JsonView>, name: Seq<char>) -> Result<Seq<char>, Seq<char>> {
    match field {
        None => Err(missing_words(name)),
        Some(JsonView::Text(s)) => Ok(s),
        Some(other) => Err(wrong_type_words(other, "a string"@)),
    }
}

/// Reads a required string field.
pub fn read_string(field: Option<&Json>, name: &str) -> (value: Result<String, String>)
    ensures
        match value {
            Ok(s) => string_field(view_of(field), name@) == Ok::<Seq<char>, Seq<char>>(s@),
            Err(words) => string_field(view_of(field), name@) == Err::<Seq<char>, Seq<char>>(words@),
        },
{
    match field {
        None => Err(missing(name)),
        Some(json) => match json {
            Json::Text(s) => Ok(s.clone()),
            other => Err(wrong_type(other, "a string")),
        },
    }
}

/// What a borrowed optional document is.
pub open spec fn view_of(json: Option<&Json>) -> Option<JsonView> {
    match json {
        Some(json) => Some(json@),
        None => None,
    }
}

} // verus!
