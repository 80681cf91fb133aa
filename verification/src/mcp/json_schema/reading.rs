//! Reading typed schemas.
//!
//! What a document says of a schema is told by the JSON of that schema: the members that a
//! schema has, in their order, and nothing besides.

use vstd::prelude::*;

use crate::decode::{field, field_view, view_of};
use crate::json::{
    and_some, fields, float_text, group_find_apart, group_find_member,
    item_views, lemma_member_index, option_view,
    some_bool, some_float, some_text, some_unsigned, text_list, text_view, Float, Json, JsonView, Number,
    NumberView,
};
use crate::mcp::capabilities::{
    check_record, is_optional_bool, is_optional_text, is_record, is_text, read_optional_text,
    read_text, text_of,
};
use crate::mcp::json_schema::{
    dup_items, lemma_map_members, map_members, property_json, property_object, schema_items, some_items, some_map,
    some_schemas, some_texts, unless_empty, JsonSchema, NamedProperty, PropertySchema, SchemaMap, ToolSchema,
};
use crate::mcp::protocol::optional;
use crate::mcp::schema::{
    annotations_read, declared_support, is_annotations, lemma_support_words_differ,
    lemma_tool_keys_differ, some_annotations, some_execution, written_hints_read_back,
    ToolAnnotations, ToolExecution,
};
use crate::text::{lex_less, views};

verus! {

// ---------------------------------------------------------------------------
// What a document says
// ---------------------------------------------------------------------------

/// Whether an optional field is absent, `null`, or a list of texts.
pub open spec fn is_optional_texts(member: Option<JsonView>) -> bool {
    match optional(member) {
        None => true,
        Some(JsonView::Array(items)) => forall|i: int|
            0 <= i < items.len() ==> (#[trigger] items[i]) is Text,
        _ => false,
    }
}

/// Whether an optional field is absent, `null`, or a list.
pub open spec fn is_optional_list(member: Option<JsonView>) -> bool {
    match optional(member) {
        None => true,
        Some(JsonView::Array(_)) => true,
        _ => false,
    }
}

/// Whether an optional field is absent, `null`, or a number.
pub open spec fn is_optional_number(member: Option<JsonView>) -> bool {
    match optional(member) {
        None => true,
        Some(JsonView::Number(_)) => true,
        _ => false,
    }
}

/// The optional number of a field that is one, held as a floating-point number.
pub open spec fn optional_number(member: Option<JsonView>) -> Option<JsonView> {
    match member {
        Some(JsonView::Number(number)) => Some(
            JsonView::Number(NumberView::Float(float_text(number))),
        ),
        _ => None,
    }
}

/// Whether an optional field is absent, `null`, or a count.
pub open spec fn is_optional_count(member: Option<JsonView>) -> bool {
    match optional(member) {
        None => true,
        Some(JsonView::Number(NumberView::Unsigned(_))) => true,
        _ => false,
    }
}

/// Whether a field is absent or a text.
pub open spec fn is_text_or_absent(member: Option<JsonView>) -> bool {
    match member {
        None => true,
        Some(JsonView::Text(_)) => true,
        _ => false,
    }
}

/// Whether the fields of a property that hold no schemas are what they should be.
pub open spec fn has_plain_fields(json: JsonView) -> bool {
    &&& is_record(json, 5, 21)
    &&& is_text_or_absent(field_view(json, "type"@, 0))
    &&& is_optional_text(field_view(json, "description"@, 1))
    &&& is_optional_texts(field_view(json, "required"@, 4))
    &&& is_optional_bool(field_view(json, "additionalProperties"@, 5))
    &&& is_optional_list(field_view(json, "enum"@, 6))
    &&& is_optional_text(field_view(json, "format"@, 9))
    &&& is_optional_text(field_view(json, "pattern"@, 10))
    &&& is_optional_number(field_view(json, "minimum"@, 11))
    &&& is_optional_number(field_view(json, "maximum"@, 12))
    &&& is_optional_count(field_view(json, "minLength"@, 13))
    &&& is_optional_count(field_view(json, "maxLength"@, 14))
    &&& is_optional_count(field_view(json, "minItems"@, 15))
    &&& is_optional_count(field_view(json, "maxItems"@, 16))
    &&& is_optional_text(field_view(json, "$ref"@, 17))
}

/// What a document says of a property, given what it says of the schemas that are nested
/// in it.
pub open spec fn property_said(
    json: JsonView,
    items: Option<JsonView>,
    properties: Option<JsonView>,
    one_of: Option<JsonView>,
    any_of: Option<JsonView>,
    all_of: Option<JsonView>,
) -> JsonView {
    let a = and_some(fields(), "type"@, unless_empty(text_of(field_view(json, "type"@, 0))));
    let b = and_some(a, "description"@, optional(field_view(json, "description"@, 1)));
    let c = and_some(b, "items"@, items);
    let d = and_some(c, "properties"@, properties);
    let e = and_some(d, "required"@, optional(field_view(json, "required"@, 4)));
    let f = and_some(
        e,
        "additionalProperties"@,
        optional(field_view(json, "additionalProperties"@, 5)),
    );
    let g = and_some(f, "enum"@, optional(field_view(json, "enum"@, 6)));
    let h = and_some(g, "const"@, optional(field_view(json, "const"@, 7)));
    let i = and_some(h, "default"@, optional(field_view(json, "default"@, 8)));
    let j = and_some(i, "format"@, optional(field_view(json, "format"@, 9)));
    let k = and_some(j, "pattern"@, optional(field_view(json, "pattern"@, 10)));
    let l = and_some(k, "minimum"@, optional_number(field_view(json, "minimum"@, 11)));
    let m = and_some(l, "maximum"@, optional_number(field_view(json, "maximum"@, 12)));
    let n = and_some(m, "minLength"@, optional(field_view(json, "minLength"@, 13)));
    let o = and_some(n, "maxLength"@, optional(field_view(json, "maxLength"@, 14)));
    let q = and_some(o, "minItems"@, optional(field_view(json, "minItems"@, 15)));
    let r = and_some(q, "maxItems"@, optional(field_view(json, "maxItems"@, 16)));
    let s = and_some(r, "$ref"@, optional(field_view(json, "$ref"@, 17)));
    let t = and_some(s, "oneOf"@, one_of);
    let u = and_some(t, "anyOf"@, any_of);
    JsonView::Object(and_some(u, "allOf"@, all_of))
}

/// A field of a record is smaller than the record.
pub proof fn lemma_fields_are_smaller(json: JsonView)
    ensures
        forall|name: Seq<char>, position: int|
            (#[trigger] field_view(json, name, position)) is Some ==> decreases_to!(
                json => field_view(json, name, position)->0
            ),
{
    assert forall|name: Seq<char>, position: int|
        (#[trigger] field_view(json, name, position)) is Some implies decreases_to!(
        json => field_view(json, name, position)->0
    ) by {
        match json {
            JsonView::Object(members) => {
                lemma_member_index(members, name);
                let at = crate::json::member_index(members, name);
                assert(decreases_to!(json => json->Object_0));
                assert(decreases_to!(members => members[at]));
                assert(decreases_to!(members[at] => members[at].1));
            },
            JsonView::Array(items) => {
                assert(decreases_to!(json => json->Array_0));
                assert(decreases_to!(items => items[position]));
            },
            _ => {},
        }
    }
}

/// What a document says of a property; nothing when it describes none.
pub open spec fn property_read(json: JsonView) -> Option<JsonView>
    decreases json,
{
    proof {
        lemma_fields_are_smaller(json);
    }
    let items = match optional(field_view(json, "items"@, 2)) {
        None => Some(None),
        Some(inner) => match property_read(inner) {
            Some(said) => Some(Some(said)),
            None => None,
        },
    };
    let properties = match optional(field_view(json, "properties"@, 3)) {
        None => Some(None),
        Some(JsonView::Object(members)) => match map_read(members) {
            Some(said) => Some(Some(JsonView::Object(said))),
            None => None,
        },
        _ => None,
    };
    let one_of = match optional(field_view(json, "oneOf"@, 18)) {
        None => Some(None),
        Some(JsonView::Array(list)) => match list_read(list) {
            Some(said) => Some(Some(JsonView::Array(said))),
            None => None,
        },
        _ => None,
    };
    let any_of = match optional(field_view(json, "anyOf"@, 19)) {
        None => Some(None),
        Some(JsonView::Array(list)) => match list_read(list) {
            Some(said) => Some(Some(JsonView::Array(said))),
            None => None,
        },
        _ => None,
    };
    let all_of = match optional(field_view(json, "allOf"@, 20)) {
        None => Some(None),
        Some(JsonView::Array(list)) => match list_read(list) {
            Some(said) => Some(Some(JsonView::Array(said))),
            None => None,
        },
        _ => None,
    };
    match (items, properties, one_of, any_of, all_of) {
        (Some(items), Some(properties), Some(one_of), Some(any_of), Some(all_of)) => if has_plain_fields(
            json,
        ) {
            Some(property_said(json, items, properties, one_of, any_of, all_of))
        } else {
            None
        },
        _ => None,
    }
}

/// What the items of a list say, when each describes a property.
pub open spec fn list_read(list: Seq<JsonView>) -> Option<Seq<JsonView>>
    decreases list,
{
    if list.len() == 0 {
        Some(Seq::empty())
    } else {
        match (list_read(list.drop_last()), property_read(list[list.len() - 1])) {
            (Some(before), Some(said)) => Some(before.push(said)),
            _ => None,
        }
    }
}

/// What the members of an object say, when each describes a property: in the order of
/// their names, and of several with one name the last.
pub open spec fn map_read(members: Seq<(Seq<char>, JsonView)>) -> Option<
    Seq<(Seq<char>, JsonView)>,
>
    decreases members,
{
    if members.len() == 0 {
        Some(Seq::empty())
    } else {
        match (map_read(members.drop_last()), property_read(members[members.len() - 1].1)) {
            (Some(before), Some(said)) => Some(
                put_in_order(before, members[members.len() - 1].0, said),
            ),
            _ => None,
        }
    }
}

/// Members that are in the order of their names, and one more in its place among them.
pub open spec fn put_in_order(
    members: Seq<(Seq<char>, JsonView)>,
    name: Seq<char>,
    value: JsonView,
) -> Seq<(Seq<char>, JsonView)>
    decreases members.len(),
{
    if members.len() == 0 || lex_less(members.last().0, name) {
        members.push((name, value))
    } else if members.last().0 == name {
        members.drop_last().push((name, value))
    } else {
        put_in_order(members.drop_last(), name, value).push(members.last())
    }
}

// ---------------------------------------------------------------------------
// Reading
// ---------------------------------------------------------------------------

pub(crate) fn read_texts(member: Option<&Json>) -> (texts: Option<Option<Vec<String>>>)
    ensures
        match texts {
            Some(texts) => is_optional_texts(view_of(member)) && some_texts(texts) == optional(
                view_of(member),
            ),
            None => !is_optional_texts(view_of(member)),
        },
{
    let json = match member {
        None => {
            return Some(None);
        },
        Some(json) => json,
    };
    let items = match json {
        Json::Null => {
            return Some(None);
        },
        Json::Array(items) => items,
        _ => {
            return None;
        },
    };
    let ghost list = json@->Array_0;
    let mut texts: Vec<String> = Vec::new();
    let mut i: usize = 0;
    while i < items.len()
        invariant
            i <= items.len(),
            view_of(member) == Some(json@),
            json@ is Array,
            list == json@->Array_0,
            list.len() == items.len(),
            forall|k: int| 0 <= k < items.len() ==> #[trigger] list[k] == items@[k]@,
            texts.len() == i,
            forall|k: int| 0 <= k < i ==> #[trigger] list[k] == JsonView::Text(texts@[k]@),
        decreases items.len() - i,
    {
        assert(list[i as int] == items@[i as int]@);
        match &items[i] {
            Json::Text(text) => {
                texts.push(text.clone());
            },
            _ => {
                assert(!(list[i as int] is Text));
                return None;
            },
        }
        i += 1;
    }
    assert(text_list(views(texts@))->Array_0 =~= list);
    Some(Some(texts))
}

fn read_list(member: Option<&Json>) -> (list: Option<Option<Vec<Json>>>)
    ensures
        match list {
            Some(list) => is_optional_list(view_of(member)) && some_items(list) == optional(
                view_of(member),
            ),
            None => !is_optional_list(view_of(member)),
        },
{
    match member {
        None => Some(None),
        Some(json) => match json {
            Json::Null => Some(None),
            Json::Array(items) => {
                let copy = dup_items(items);
                assert(json@->Array_0 =~= item_views(items@));
                Some(Some(copy))
            },
            _ => None,
        },
    }
}

pub(crate) fn read_optional_float(member: Option<&Json>) -> (float: Option<Option<Float>>)
    ensures
        match float {
            Some(float) => is_optional_number(view_of(member)) && some_float(float)
                == optional_number(view_of(member)),
            None => !is_optional_number(view_of(member)),
        },
{
    match member {
        None => Some(None),
        Some(json) => match json {
            Json::Null => Some(None),
            other => match Float::from_json(other) {
                Some(float) => Some(Some(float)),
                None => None,
            },
        },
    }
}

fn read_count(member: Option<&Json>) -> (count: Option<Option<u64>>)
    ensures
        match count {
            Some(count) => is_optional_count(view_of(member)) && some_unsigned(count) == optional(
                view_of(member),
            ),
            None => !is_optional_count(view_of(member)),
        },
{
    match member {
        None => Some(None),
        Some(json) => match json {
            Json::Null => Some(None),
            Json::Number(Number::Unsigned(n)) => Some(Some(*n)),
            _ => None,
        },
    }
}

fn read_bool(member: Option<&Json>) -> (flag: Option<Option<bool>>)
    ensures
        match flag {
            Some(flag) => is_optional_bool(view_of(member)) && some_bool(flag) == optional(
                view_of(member),
            ),
            None => !is_optional_bool(view_of(member)),
        },
{
    match member {
        None => Some(None),
        Some(json) => match json {
            Json::Null => Some(None),
            Json::Bool(b) => Some(Some(*b)),
            _ => None,
        },
    }
}

fn read_words(member: Option<&Json>) -> (words: Option<Option<String>>)
    ensures
        match words {
            Some(words) => is_optional_text(view_of(member)) && some_text(text_view(words))
                == optional(view_of(member)),
            None => !is_optional_text(view_of(member)),
        },
{
    read_optional_text(member)
}

fn read_type(member: Option<&Json>) -> (word: Option<String>)
    ensures
        match word {
            Some(word) => is_text_or_absent(view_of(member)) && unless_empty(word@) == unless_empty(
                text_of(view_of(member)),
            ),
            None => !is_text_or_absent(view_of(member)),
        },
{
    match member {
        None => {
            proof {
                reveal_strlit("");
            }
            Some("".to_owned())
        },
        Some(json) => match json {
            Json::Text(word) => Some(word.clone()),
            _ => None,
        },
    }
}

fn read_any(member: Option<&Json>) -> (json: Option<Json>)
    ensures
        option_view(json) == optional(view_of(member)),
{
    match member {
        None => None,
        Some(json) => match json {
            Json::Null => None,
            other => Some(other.dup()),
        },
    }
}

/// Whether the fields of a property that hold no schemas are what a document says.
#[verifier::opaque]
pub open spec fn plain_as_said(p: PropertySchema, json: JsonView) -> bool {
    &&& unless_empty(p.property_type@) == unless_empty(text_of(field_view(json, "type"@, 0)))
    &&& some_text(text_view(p.description)) == optional(field_view(json, "description"@, 1))
    &&& some_texts(p.required) == optional(field_view(json, "required"@, 4))
    &&& some_bool(p.additional_properties) == optional(
        field_view(json, "additionalProperties"@, 5),
    )
    &&& some_items(p.enum_values) == optional(field_view(json, "enum"@, 6))
    &&& option_view(p.const_value) == optional(field_view(json, "const"@, 7))
    &&& option_view(p.default_value) == optional(field_view(json, "default"@, 8))
    &&& some_text(text_view(p.format)) == optional(field_view(json, "format"@, 9))
    &&& some_text(text_view(p.pattern)) == optional(field_view(json, "pattern"@, 10))
    &&& some_float(p.minimum) == optional_number(field_view(json, "minimum"@, 11))
    &&& some_float(p.maximum) == optional_number(field_view(json, "maximum"@, 12))
    &&& some_unsigned(p.min_length) == optional(field_view(json, "minLength"@, 13))
    &&& some_unsigned(p.max_length) == optional(field_view(json, "maxLength"@, 14))
    &&& some_unsigned(p.min_items) == optional(field_view(json, "minItems"@, 15))
    &&& some_unsigned(p.max_items) == optional(field_view(json, "maxItems"@, 16))
    &&& some_text(text_view(p.ref_path)) == optional(field_view(json, "$ref"@, 17))
}

/// The JSON of a property whose plain fields are what a document says.
proof fn lemma_plain_as_said(
    plain: PropertySchema,
    p: PropertySchema,
    json: JsonView,
    items: Option<JsonView>,
    properties: Option<JsonView>,
    one_of: Option<JsonView>,
    any_of: Option<JsonView>,
    all_of: Option<JsonView>,
)
    requires
        plain_as_said(plain, json),
        p == (PropertySchema {
            items: p.items,
            properties: p.properties,
            one_of: p.one_of,
            any_of: p.any_of,
            all_of: p.all_of,
            ..plain
        }),
    ensures
        property_said(json, items, properties, one_of, any_of, all_of) == property_object(
            p,
            items,
            properties,
            one_of,
            any_of,
            all_of,
        ),
{
    reveal(plain_as_said);
}

/// What a document says of a property is what it says of each part.
proof fn lemma_property_read(json: JsonView)
    ensures
        property_read(json) == match (
            item_said(field_view(json, "items"@, 2)),
            map_said(field_view(json, "properties"@, 3)),
            list_said(field_view(json, "oneOf"@, 18)),
            list_said(field_view(json, "anyOf"@, 19)),
            list_said(field_view(json, "allOf"@, 20)),
        ) {
            (Some(items), Some(properties), Some(one_of), Some(any_of), Some(all_of)) => if has_plain_fields(
                json,
            ) {
                Some(property_said(json, items, properties, one_of, any_of, all_of))
            } else {
                None
            },
            _ => None,
        },
{
}

/// The fields of a property that hold no schemas.
fn read_plain_fields(json: &Json) -> (property: Option<PropertySchema>)
    ensures
        match property {
            Some(p) => has_plain_fields(json@) && plain_as_said(p, json@),
            None => !has_plain_fields(json@),
        },
{
    proof {
        reveal(plain_as_said);
    }
    if !check_record(json, 5, 21) {
        return None;
    }
    let words = match (
        read_type(field(json, "type", 0)),
        read_words(field(json, "description", 1)),
        read_texts(field(json, "required", 4)),
        read_words(field(json, "format", 9)),
        read_words(field(json, "pattern", 10)),
        read_words(field(json, "$ref", 17)),
    ) {
        (Some(word), Some(description), Some(required), Some(format), Some(pattern), Some(ref_path)) => (
            word,
            description,
            required,
            format,
            pattern,
            ref_path,
        ),
        _ => {
            return None;
        },
    };
    let values = match (
        read_bool(field(json, "additionalProperties", 5)),
        read_list(field(json, "enum", 6)),
        read_optional_float(field(json, "minimum", 11)),
        read_optional_float(field(json, "maximum", 12)),
    ) {
        (Some(more), Some(enum_values), Some(minimum), Some(maximum)) => (
            more,
            enum_values,
            minimum,
            maximum,
        ),
        _ => {
            return None;
        },
    };
    let counts = match (
        read_count(field(json, "minLength", 13)),
        read_count(field(json, "maxLength", 14)),
        read_count(field(json, "minItems", 15)),
        read_count(field(json, "maxItems", 16)),
    ) {
        (Some(min_length), Some(max_length), Some(min_items), Some(max_items)) => (
            min_length,
            max_length,
            min_items,
            max_items,
        ),
        _ => {
            return None;
        },
    };
    Some(
        PropertySchema {
            property_type: words.0,
            description: words.1,
            items: None,
            properties: None,
            required: words.2,
            additional_properties: values.0,
            enum_values: values.1,
            const_value: read_any(field(json, "const", 7)),
            default_value: read_any(field(json, "default", 8)),
            format: words.3,
            pattern: words.4,
            minimum: values.2,
            maximum: values.3,
            min_length: counts.0,
            max_length: counts.1,
            min_items: counts.2,
            max_items: counts.3,
            ref_path: words.5,
            one_of: None,
            any_of: None,
            all_of: None,
        },
    )
}

/// The JSON of a schema that may be absent.
pub open spec fn some_property(property: Option<Box<PropertySchema>>) -> Option<JsonView> {
    match property {
        Some(inner) => Some(property_json(*inner)),
        None => None,
    }
}

/// What an optional schema says.
pub open spec fn item_said(member: Option<JsonView>) -> Option<Option<JsonView>> {
    match optional(member) {
        None => Some(None),
        Some(inner) => match property_read(inner) {
            Some(said) => Some(Some(said)),
            None => None,
        },
    }
}

/// What an optional list of schemas says.
pub open spec fn list_said(member: Option<JsonView>) -> Option<Option<JsonView>> {
    match optional(member) {
        None => Some(None),
        Some(JsonView::Array(list)) => match list_read(list) {
            Some(said) => Some(Some(JsonView::Array(said))),
            None => None,
        },
        _ => None,
    }
}

/// What an optional map of schemas says.
pub open spec fn map_said(member: Option<JsonView>) -> Option<Option<JsonView>> {
    match optional(member) {
        None => Some(None),
        Some(JsonView::Object(members)) => match map_read(members) {
            Some(said) => Some(Some(JsonView::Object(said))),
            None => None,
        },
        _ => None,
    }
}

fn read_schemas(record: &Json, name: &str, position: usize) -> (list: Option<
    Option<Vec<PropertySchema>>,
>)
    ensures
        match list {
            Some(list) => list_said(field_view(record@, name@, position as int)) == Some(
                some_schemas(list),
            ),
            None => list_said(field_view(record@, name@, position as int)) is None,
        },
    decreases record@, 0int,
{
    proof {
        lemma_fields_are_smaller(record@);
    }
    let json = match field(record, name, position) {
        None => {
            return Some(None);
        },
        Some(json) => json,
    };
    let items = match json {
        Json::Null => {
            return Some(None);
        },
        Json::Array(items) => items,
        _ => {
            return None;
        },
    };
    let ghost list = json@->Array_0;
    let mut schemas: Vec<PropertySchema> = Vec::new();
    let mut i: usize = 0;
    assert(list.take(0) =~= Seq::<JsonView>::empty());
    while i < items.len()
        invariant
            i <= items.len(),
            field_view(record@, name@, position as int) == Some(json@),
            decreases_to!(record@ => json@),
            *json == Json::Array(*items),
            list == json@->Array_0,
            json@ is Array,
            list.len() == items.len(),
            forall|k: int| 0 <= k < items.len() ==> #[trigger] list[k] == items@[k]@,
            list_read(list.take(i as int)) == Some(schema_items(schemas@)),
        decreases items.len() - i,
    {
        proof {
            assert(list[i as int] == items@[i as int]@);
            assert(list.take(i + 1).drop_last() =~= list.take(i as int));
            assert(list.take(i + 1)[i as int] == list[i as int]);
            assert(decreases_to!(json@ => json@->Array_0));
            assert(decreases_to!(list => list[i as int]));
        }
        let ghost before = schemas@;
        match PropertySchema::from_json(&items[i]) {
            Some(schema) => {
                schemas.push(schema);
                assert(schemas@.drop_last() =~= before);
            },
            None => {
                proof {
                    lemma_list_refused(list, i as int);
                }
                return None;
            },
        }
        i += 1;
    }
    assert(list.take(i as int) =~= list);
    Some(Some(schemas))
}

/// A list is refused with its first item that describes no property.
proof fn lemma_list_refused(list: Seq<JsonView>, at: int)
    requires
        0 <= at < list.len(),
        property_read(list[at]) is None,
    ensures
        list_read(list) is None,
    decreases list.len(),
{
    if at < list.len() - 1 {
        assert(list.drop_last()[at] == list[at]);
        lemma_list_refused(list.drop_last(), at);
    }
}

/// An object is refused with its first member that describes no property.
proof fn lemma_map_refused(members: Seq<(Seq<char>, JsonView)>, at: int)
    requires
        0 <= at < members.len(),
        property_read(members[at].1) is None,
    ensures
        map_read(members) is None,
    decreases members.len(),
{
    if at < members.len() - 1 {
        assert(members.drop_last()[at] == members[at]);
        lemma_map_refused(members.drop_last(), at);
    }
}

fn read_map(record: &Json, name: &str, position: usize) -> (map: Option<Option<SchemaMap>>)
    ensures
        match map {
            Some(map) => map_said(field_view(record@, name@, position as int)) == Some(
                some_map(map),
            ),
            None => map_said(field_view(record@, name@, position as int)) is None,
        },
    decreases record@, 0int,
{
    proof {
        lemma_fields_are_smaller(record@);
    }
    let json = match field(record, name, position) {
        None => {
            return Some(None);
        },
        Some(json) => json,
    };
    let members = match json {
        Json::Null => {
            return Some(None);
        },
        Json::Object(members) => members,
        _ => {
            return None;
        },
    };
    let ghost list = json@->Object_0;
    let mut map = SchemaMap::new();
    let mut i: usize = 0;
    assert(list.take(0) =~= Seq::<(Seq<char>, JsonView)>::empty());
    while i < members.len()
        invariant
            i <= members.len(),
            field_view(record@, name@, position as int) == Some(json@),
            decreases_to!(record@ => json@),
            *json == Json::Object(*members),
            list == json@->Object_0,
            json@ is Object,
            list.len() == members.len(),
            forall|k: int|
                0 <= k < members.len() ==> #[trigger] list[k] == (
                    members@[k].key@,
                    members@[k].value@,
                ),
            map_read(list.take(i as int)) == Some(map_members(map.listed())),
        decreases members.len() - i,
    {
        proof {
            assert(list[i as int] == (members@[i as int].key@, members@[i as int].value@));
            assert(list.take(i + 1).drop_last() =~= list.take(i as int));
            assert(list.take(i + 1)[i as int] == list[i as int]);
            assert(decreases_to!(json@ => json@->Object_0));
            assert(decreases_to!(list => list[i as int]));
            assert(decreases_to!(list[i as int] => list[i as int].1));
        }
        match PropertySchema::from_json(&members[i].value) {
            Some(schema) => map.insert(members[i].key.clone(), schema),
            None => {
                proof {
                    lemma_map_refused(list, i as int);
                }
                return None;
            },
        }
        i += 1;
    }
    assert(list.take(i as int) =~= list);
    Some(Some(map))
}

impl PropertySchema {
    /// Reads a property.
    pub fn from_json(json: &Json) -> (property: Option<Self>)
        ensures
            match property {
                Some(property) => property_read(json@) == Some(property_json(property)),
                None => property_read(json@) is None,
            },
        decreases json@, 1int,
    {
        proof {
            lemma_fields_are_smaller(json@);
        }
        let plain = match read_plain_fields(json) {
            Some(plain) => plain,
            None => {
                return None;
            },
        };
        proof {
            lemma_property_read(json@);
        }
        let items = match field(json, "items", 2) {
            None => None,
            Some(member) => match member {
                Json::Null => None,
                inner => match PropertySchema::from_json(inner) {
                    Some(inner) => Some(Box::new(inner)),
                    None => {
                        return None;
                    },
                },
            },
        };
        let properties = match read_map(json, "properties", 3) {
            Some(properties) => properties,
            None => {
                return None;
            },
        };
        match (
            read_schemas(json, "oneOf", 18),
            read_schemas(json, "anyOf", 19),
            read_schemas(json, "allOf", 20),
        ) {
            (Some(one_of), Some(any_of), Some(all_of)) => {
                let ghost before = plain;
                let property = PropertySchema {
                    items,
                    properties,
                    one_of,
                    any_of,
                    all_of,
                    ..plain
                };
                proof {
                    lemma_plain_as_said(
                        before,
                        property,
                        json@,
                        some_property(items),
                        some_map(properties),
                        some_schemas(one_of),
                        some_schemas(any_of),
                        some_schemas(all_of),
                    );
                }
                Some(property)
            },
            _ => None,
        }
    }
}

// ---------------------------------------------------------------------------
// Whole schemas
// ---------------------------------------------------------------------------

/// What a document says of a schema; nothing when it describes none.
pub open spec fn schema_read(json: JsonView) -> Option<JsonView> {
    let plain = {
        &&& is_record(json, 5, 10)
        &&& is_optional_text(field_view(json, "$schema"@, 0))
        &&& is_text_or_absent(field_view(json, "type"@, 1))
        &&& is_optional_text(field_view(json, "description"@, 2))
        &&& is_optional_texts(field_view(json, "required"@, 4))
        &&& is_optional_bool(field_view(json, "additionalProperties"@, 5))
    };
    match (
        map_said(field_view(json, "properties"@, 3)),
        map_said(field_view(json, "$defs"@, 6)),
        list_said(field_view(json, "oneOf"@, 7)),
        list_said(field_view(json, "anyOf"@, 8)),
        list_said(field_view(json, "allOf"@, 9)),
    ) {
        (Some(properties), Some(defs), Some(one_of), Some(any_of), Some(all_of)) => if plain {
            let a = and_some(fields(), "$schema"@, optional(field_view(json, "$schema"@, 0)));
            let b = and_some(a, "type"@, unless_empty(text_of(field_view(json, "type"@, 1))));
            let c = and_some(b, "description"@, optional(field_view(json, "description"@, 2)));
            let d = and_some(c, "properties"@, properties);
            let e = and_some(d, "required"@, optional(field_view(json, "required"@, 4)));
            let f = and_some(
                e,
                "additionalProperties"@,
                optional(field_view(json, "additionalProperties"@, 5)),
            );
            let g = and_some(f, "$defs"@, defs);
            let h = and_some(g, "oneOf"@, one_of);
            let i = and_some(h, "anyOf"@, any_of);
            Some(JsonView::Object(and_some(i, "allOf"@, all_of)))
        } else {
            None
        },
        _ => None,
    }
}

impl JsonSchema {
    /// Reads a schema.
    pub fn from_json(json: &Json) -> (schema: Option<Self>)
        ensures
            match schema {
                Some(schema) => schema_read(json@) == Some(schema.wire()),
                None => schema_read(json@) is None,
            },
    {
        if !check_record(json, 5, 10) {
            return None;
        }
        let plain = (
            read_words(field(json, "$schema", 0)),
            read_type(field(json, "type", 1)),
            read_words(field(json, "description", 2)),
            read_texts(field(json, "required", 4)),
            read_bool(field(json, "additionalProperties", 5)),
        );
        let nested = (
            read_map(json, "properties", 3),
            read_map(json, "$defs", 6),
            read_schemas(json, "oneOf", 7),
            read_schemas(json, "anyOf", 8),
            read_schemas(json, "allOf", 9),
        );
        match (plain, nested) {
            (
                (
                    Some(schema_dialect),
                    Some(schema_type),
                    Some(description),
                    Some(required),
                    Some(additional_properties),
                ),
                (Some(properties), Some(defs), Some(one_of), Some(any_of), Some(all_of)),
            ) => Some(
                JsonSchema {
                    schema_dialect,
                    schema_type,
                    description,
                    properties,
                    required,
                    additional_properties,
                    defs,
                    one_of,
                    any_of,
                    all_of,
                },
            ),
            _ => None,
        }
    }
}

/// What a document says of a tool with typed schemas; nothing when it describes none.
pub open spec fn tool_schema_read(json: JsonView) -> Option<JsonView> {
    let input = match field_view(json, "inputSchema"@, 2) {
        Some(schema) => schema_read(schema),
        None => None,
    };
    let output = match optional(field_view(json, "outputSchema"@, 3)) {
        Some(schema) => match schema_read(schema) {
            Some(said) => Some(Some(said)),
            None => None,
        },
        None => Some(None),
    };
    let hints = match optional(field_view(json, "annotations"@, 4)) {
        Some(hints) => if is_annotations(hints) {
            Some(Some(annotations_read(hints)))
        } else {
            None
        },
        None => Some(None),
    };
    let execution = match optional(field_view(json, "execution"@, 5)) {
        Some(execution) => match declared_support(execution) {
            Some(task_support) => Some(Some((ToolExecution { task_support }).wire())),
            None => None,
        },
        None => Some(None),
    };
    match (input, output, hints, execution) {
        (Some(input), Some(output), Some(hints), Some(execution)) => if is_record(json, 5, 6)
            && is_text(field_view(json, "name"@, 0)) && is_text(
            field_view(json, "description"@, 1),
        ) {
            let base = fields().push(
                ("name"@, JsonView::Text(text_of(field_view(json, "name"@, 0)))),
            ).push(
                ("description"@, JsonView::Text(text_of(field_view(json, "description"@, 1)))),
            ).push(("inputSchema"@, input));
            Some(
                JsonView::Object(
                    and_some(
                        and_some(
                            and_some(base, "outputSchema"@, output),
                            "annotations"@,
                            hints,
                        ),
                        "execution"@,
                        execution,
                    ),
                ),
            )
        } else {
            None
        },
        _ => None,
    }
}

impl ToolSchema {
    /// Reads a tool with typed schemas.
    pub fn from_json(json: &Json) -> (tool: Option<Self>)
        ensures
            match tool {
                Some(tool) => tool_schema_read(json@) == Some(tool.wire()),
                None => tool_schema_read(json@) is None,
            },
    {
        if !check_record(json, 5, 6) {
            return None;
        }
        let input_schema = match field(json, "inputSchema", 2) {
            Some(schema) => match JsonSchema::from_json(schema) {
                Some(schema) => schema,
                None => {
                    return None;
                },
            },
            None => {
                return None;
            },
        };
        let output_schema = match field(json, "outputSchema", 3) {
            None => None,
            Some(member) => match member {
                Json::Null => None,
                other => match JsonSchema::from_json(other) {
                    Some(schema) => Some(schema),
                    None => {
                        return None;
                    },
                },
            },
        };
        let annotations = match field(json, "annotations", 4) {
            None => None,
            Some(member) => match member {
                Json::Null => None,
                other => match ToolAnnotations::from_json(other) {
                    Some(hints) => Some(hints),
                    None => {
                        return None;
                    },
                },
            },
        };
        let execution = match field(json, "execution", 5) {
            None => None,
            Some(member) => match member {
                Json::Null => None,
                other => match ToolExecution::from_json(other) {
                    Some(execution) => Some(execution),
                    None => {
                        return None;
                    },
                },
            },
        };
        match (read_text(field(json, "name", 0)), read_text(field(json, "description", 1))) {
            (Some(name), Some(description)) => Some(
                ToolSchema {
                    name,
                    description,
                    input_schema,
                    output_schema,
                    annotations,
                    execution,
                },
            ),
            _ => None,
        }
    }
}

// ---------------------------------------------------------------------------
// Laws
// ---------------------------------------------------------------------------

/// The names of a property's members are distinct.
pub(crate) proof fn lemma_property_keys_differ()
    ensures
        "type"@ != "description"@,
        "type"@ != "items"@,
        "type"@ != "properties"@,
        "type"@ != "required"@,
        "type"@ != "additionalProperties"@,
        "type"@ != "enum"@,
        "type"@ != "const"@,
        "type"@ != "default"@,
        "type"@ != "format"@,
        "type"@ != "pattern"@,
        "type"@ != "minimum"@,
        "type"@ != "maximum"@,
        "type"@ != "minLength"@,
        "type"@ != "maxLength"@,
        "type"@ != "minItems"@,
        "type"@ != "maxItems"@,
        "type"@ != "$ref"@,
        "type"@ != "oneOf"@,
        "type"@ != "anyOf"@,
        "type"@ != "allOf"@,
        "description"@ != "items"@,
        "description"@ != "properties"@,
        "description"@ != "required"@,
        "description"@ != "additionalProperties"@,
        "description"@ != "enum"@,
        "description"@ != "const"@,
        "description"@ != "default"@,
        "description"@ != "format"@,
        "description"@ != "pattern"@,
        "description"@ != "minimum"@,
        "description"@ != "maximum"@,
        "description"@ != "minLength"@,
        "description"@ != "maxLength"@,
        "description"@ != "minItems"@,
        "description"@ != "maxItems"@,
        "description"@ != "$ref"@,
        "description"@ != "oneOf"@,
        "description"@ != "anyOf"@,
        "description"@ != "allOf"@,
        "items"@ != "properties"@,
        "items"@ != "required"@,
        "items"@ != "additionalProperties"@,
        "items"@ != "enum"@,
        "items"@ != "const"@,
        "items"@ != "default"@,
        "items"@ != "format"@,
        "items"@ != "pattern"@,
        "items"@ != "minimum"@,
        "items"@ != "maximum"@,
        "items"@ != "minLength"@,
        "items"@ != "maxLength"@,
        "items"@ != "minItems"@,
        "items"@ != "maxItems"@,
        "items"@ != "$ref"@,
        "items"@ != "oneOf"@,
        "items"@ != "anyOf"@,
        "items"@ != "allOf"@,
        "properties"@ != "required"@,
        "properties"@ != "additionalProperties"@,
        "properties"@ != "enum"@,
        "properties"@ != "const"@,
        "properties"@ != "default"@,
        "properties"@ != "format"@,
        "properties"@ != "pattern"@,
        "properties"@ != "minimum"@,
        "properties"@ != "maximum"@,
        "properties"@ != "minLength"@,
        "properties"@ != "maxLength"@,
        "properties"@ != "minItems"@,
        "properties"@ != "maxItems"@,
        "properties"@ != "$ref"@,
        "properties"@ != "oneOf"@,
        "properties"@ != "anyOf"@,
        "properties"@ != "allOf"@,
        "required"@ != "additionalProperties"@,
        "required"@ != "enum"@,
        "required"@ != "const"@,
        "required"@ != "default"@,
        "required"@ != "format"@,
        "required"@ != "pattern"@,
        "required"@ != "minimum"@,
        "required"@ != "maximum"@,
        "required"@ != "minLength"@,
        "required"@ != "maxLength"@,
        "required"@ != "minItems"@,
        "required"@ != "maxItems"@,
        "required"@ != "$ref"@,
        "required"@ != "oneOf"@,
        "required"@ != "anyOf"@,
        "required"@ != "allOf"@,
        "additionalProperties"@ != "enum"@,
        "additionalProperties"@ != "const"@,
        "additionalProperties"@ != "default"@,
        "additionalProperties"@ != "format"@,
        "additionalProperties"@ != "pattern"@,
        "additionalProperties"@ != "minimum"@,
        "additionalProperties"@ != "maximum"@,
        "additionalProperties"@ != "minLength"@,
        "additionalProperties"@ != "maxLength"@,
        "additionalProperties"@ != "minItems"@,
        "additionalProperties"@ != "maxItems"@,
        "additionalProperties"@ != "$ref"@,
        "additionalProperties"@ != "oneOf"@,
        "additionalProperties"@ != "anyOf"@,
        "additionalProperties"@ != "allOf"@,
        "enum"@ != "const"@,
        "enum"@ != "default"@,
        "enum"@ != "format"@,
        "enum"@ != "pattern"@,
        "enum"@ != "minimum"@,
        "enum"@ != "maximum"@,
        "enum"@ != "minLength"@,
        "enum"@ != "maxLength"@,
        "enum"@ != "minItems"@,
        "enum"@ != "maxItems"@,
        "enum"@ != "$ref"@,
        "enum"@ != "oneOf"@,
        "enum"@ != "anyOf"@,
        "enum"@ != "allOf"@,
        "const"@ != "default"@,
        "const"@ != "format"@,
        "const"@ != "pattern"@,
        "const"@ != "minimum"@,
        "const"@ != "maximum"@,
        "const"@ != "minLength"@,
        "const"@ != "maxLength"@,
        "const"@ != "minItems"@,
        "const"@ != "maxItems"@,
        "const"@ != "$ref"@,
        "const"@ != "oneOf"@,
        "const"@ != "anyOf"@,
        "const"@ != "allOf"@,
        "default"@ != "format"@,
        "default"@ != "pattern"@,
        "default"@ != "minimum"@,
        "default"@ != "maximum"@,
        "default"@ != "minLength"@,
        "default"@ != "maxLength"@,
        "default"@ != "minItems"@,
        "default"@ != "maxItems"@,
        "default"@ != "$ref"@,
        "default"@ != "oneOf"@,
        "default"@ != "anyOf"@,
        "default"@ != "allOf"@,
        "format"@ != "pattern"@,
        "format"@ != "minimum"@,
        "format"@ != "maximum"@,
        "format"@ != "minLength"@,
        "format"@ != "maxLength"@,
        "format"@ != "minItems"@,
        "format"@ != "maxItems"@,
        "format"@ != "$ref"@,
        "format"@ != "oneOf"@,
        "format"@ != "anyOf"@,
        "format"@ != "allOf"@,
        "pattern"@ != "minimum"@,
        "pattern"@ != "maximum"@,
        "pattern"@ != "minLength"@,
        "pattern"@ != "maxLength"@,
        "pattern"@ != "minItems"@,
        "pattern"@ != "maxItems"@,
        "pattern"@ != "$ref"@,
        "pattern"@ != "oneOf"@,
        "pattern"@ != "anyOf"@,
        "pattern"@ != "allOf"@,
        "minimum"@ != "maximum"@,
        "minimum"@ != "minLength"@,
        "minimum"@ != "maxLength"@,
        "minimum"@ != "minItems"@,
        "minimum"@ != "maxItems"@,
        "minimum"@ != "$ref"@,
        "minimum"@ != "oneOf"@,
        "minimum"@ != "anyOf"@,
        "minimum"@ != "allOf"@,
        "maximum"@ != "minLength"@,
        "maximum"@ != "maxLength"@,
        "maximum"@ != "minItems"@,
        "maximum"@ != "maxItems"@,
        "maximum"@ != "$ref"@,
        "maximum"@ != "oneOf"@,
        "maximum"@ != "anyOf"@,
        "maximum"@ != "allOf"@,
        "minLength"@ != "maxLength"@,
        "minLength"@ != "minItems"@,
        "minLength"@ != "maxItems"@,
        "minLength"@ != "$ref"@,
        "minLength"@ != "oneOf"@,
        "minLength"@ != "anyOf"@,
        "minLength"@ != "allOf"@,
        "maxLength"@ != "minItems"@,
        "maxLength"@ != "maxItems"@,
        "maxLength"@ != "$ref"@,
        "maxLength"@ != "oneOf"@,
        "maxLength"@ != "anyOf"@,
        "maxLength"@ != "allOf"@,
        "minItems"@ != "maxItems"@,
        "minItems"@ != "$ref"@,
        "minItems"@ != "oneOf"@,
        "minItems"@ != "anyOf"@,
        "minItems"@ != "allOf"@,
        "maxItems"@ != "$ref"@,
        "maxItems"@ != "oneOf"@,
        "maxItems"@ != "anyOf"@,
        "maxItems"@ != "allOf"@,
        "$ref"@ != "oneOf"@,
        "$ref"@ != "anyOf"@,
        "$ref"@ != "allOf"@,
        "oneOf"@ != "anyOf"@,
        "oneOf"@ != "allOf"@,
        "anyOf"@ != "allOf"@,
{
    reveal_strlit("type");
    reveal_strlit("description");
    reveal_strlit("items");
    reveal_strlit("properties");
    reveal_strlit("required");
    reveal_strlit("additionalProperties");
    reveal_strlit("enum");
    reveal_strlit("const");
    reveal_strlit("default");
    reveal_strlit("format");
    reveal_strlit("pattern");
    reveal_strlit("minimum");
    reveal_strlit("maximum");
    reveal_strlit("minLength");
    reveal_strlit("maxLength");
    reveal_strlit("minItems");
    reveal_strlit("maxItems");
    reveal_strlit("$ref");
    reveal_strlit("oneOf");
    reveal_strlit("anyOf");
    reveal_strlit("allOf");
    assert("type"@.len() == 4);
    assert("description"@.len() == 11);
    assert("items"@.len() == 5);
    assert("properties"@.len() == 10);
    assert("required"@.len() == 8);
    assert("additionalProperties"@.len() == 20);
    assert("enum"@.len() == 4);
    assert("const"@.len() == 5);
    assert("default"@.len() == 7);
    assert("format"@.len() == 6);
    assert("pattern"@.len() == 7);
    assert("minimum"@.len() == 7);
    assert("maximum"@.len() == 7);
    assert("minLength"@.len() == 9);
    assert("maxLength"@.len() == 9);
    assert("minItems"@.len() == 8);
    assert("maxItems"@.len() == 8);
    assert("$ref"@.len() == 4);
    assert("oneOf"@.len() == 5);
    assert("anyOf"@.len() == 5);
    assert("allOf"@.len() == 5);
    assert("type"@[0] != "enum"@[0]);
    assert("type"@[0] != "$ref"@[0]);
    assert("items"@[0] != "const"@[0]);
    assert("items"@[0] != "oneOf"@[0]);
    assert("items"@[0] != "anyOf"@[0]);
    assert("items"@[0] != "allOf"@[0]);
    assert("required"@[0] != "minItems"@[0]);
    assert("required"@[0] != "maxItems"@[0]);
    assert("enum"@[0] != "$ref"@[0]);
    assert("const"@[0] != "oneOf"@[0]);
    assert("const"@[0] != "anyOf"@[0]);
    assert("const"@[0] != "allOf"@[0]);
    assert("default"@[0] != "pattern"@[0]);
    assert("default"@[0] != "minimum"@[0]);
    assert("default"@[0] != "maximum"@[0]);
    assert("pattern"@[0] != "minimum"@[0]);
    assert("pattern"@[0] != "maximum"@[0]);
    assert("minimum"@[1] != "maximum"@[1]);
    assert("minLength"@[1] != "maxLength"@[1]);
    assert("minItems"@[1] != "maxItems"@[1]);
    assert("oneOf"@[0] != "anyOf"@[0]);
    assert("oneOf"@[0] != "allOf"@[0]);
    assert("anyOf"@[1] != "allOf"@[1]);
}

/// The names of a schema's members are distinct.
pub(crate) proof fn lemma_schema_keys_differ()
    ensures
        "$schema"@ != "type"@,
        "$schema"@ != "description"@,
        "$schema"@ != "properties"@,
        "$schema"@ != "required"@,
        "$schema"@ != "additionalProperties"@,
        "$schema"@ != "$defs"@,
        "$schema"@ != "oneOf"@,
        "$schema"@ != "anyOf"@,
        "$schema"@ != "allOf"@,
        "type"@ != "description"@,
        "type"@ != "properties"@,
        "type"@ != "required"@,
        "type"@ != "additionalProperties"@,
        "type"@ != "$defs"@,
        "type"@ != "oneOf"@,
        "type"@ != "anyOf"@,
        "type"@ != "allOf"@,
        "description"@ != "properties"@,
        "description"@ != "required"@,
        "description"@ != "additionalProperties"@,
        "description"@ != "$defs"@,
        "description"@ != "oneOf"@,
        "description"@ != "anyOf"@,
        "description"@ != "allOf"@,
        "properties"@ != "required"@,
        "properties"@ != "additionalProperties"@,
        "properties"@ != "$defs"@,
        "properties"@ != "oneOf"@,
        "properties"@ != "anyOf"@,
        "properties"@ != "allOf"@,
        "required"@ != "additionalProperties"@,
        "required"@ != "$defs"@,
        "required"@ != "oneOf"@,
        "required"@ != "anyOf"@,
        "required"@ != "allOf"@,
        "additionalProperties"@ != "$defs"@,
        "additionalProperties"@ != "oneOf"@,
        "additionalProperties"@ != "anyOf"@,
        "additionalProperties"@ != "allOf"@,
        "$defs"@ != "oneOf"@,
        "$defs"@ != "anyOf"@,
        "$defs"@ != "allOf"@,
        "oneOf"@ != "anyOf"@,
        "oneOf"@ != "allOf"@,
        "anyOf"@ != "allOf"@,
{
    reveal_strlit("$schema");
    reveal_strlit("type");
    reveal_strlit("description");
    reveal_strlit("properties");
    reveal_strlit("required");
    reveal_strlit("additionalProperties");
    reveal_strlit("$defs");
    reveal_strlit("oneOf");
    reveal_strlit("anyOf");
    reveal_strlit("allOf");
    assert("$schema"@.len() == 7);
    assert("type"@.len() == 4);
    assert("description"@.len() == 11);
    assert("properties"@.len() == 10);
    assert("required"@.len() == 8);
    assert("additionalProperties"@.len() == 20);
    assert("$defs"@.len() == 5);
    assert("oneOf"@.len() == 5);
    assert("anyOf"@.len() == 5);
    assert("allOf"@.len() == 5);
    assert("$defs"@[0] != "oneOf"@[0]);
    assert("$defs"@[0] != "anyOf"@[0]);
    assert("$defs"@[0] != "allOf"@[0]);
    assert("oneOf"@[0] != "anyOf"@[0]);
    assert("oneOf"@[0] != "allOf"@[0]);
    assert("anyOf"@[1] != "allOf"@[1]);
}

/// Whether a property can be told from its JSON: no value that it holds is `null`, which
/// reads as absent, its bounds are numbers that JSON has, and maps are in order; and so for all that is nested in it.
pub open spec fn tellable(p: PropertySchema) -> bool
    decreases p,
{
    &&& option_view(p.const_value) != Some(JsonView::Null)
    &&& option_view(p.default_value) != Some(JsonView::Null)
    &&& p.minimum != Some(Float::NotFinite)
    &&& p.maximum != Some(Float::NotFinite)
    &&& match p.items {
        Some(inner) => tellable(*inner),
        None => true,
    }
    &&& match p.properties {
        Some(map) => map.sorted() && entries_tellable(map.listed()),
        None => true,
    }
    &&& match p.one_of {
        Some(list) => list_tellable(list@),
        None => true,
    }
    &&& match p.any_of {
        Some(list) => list_tellable(list@),
        None => true,
    }
    &&& match p.all_of {
        Some(list) => list_tellable(list@),
        None => true,
    }
}

/// Whether every property of a list can be told from its JSON.
pub open spec fn list_tellable(list: Seq<PropertySchema>) -> bool
    decreases list,
{
    list.len() > 0 ==> list_tellable(list.drop_last()) && tellable(list[list.len() - 1])
}

/// Whether every property of a map can be told from its JSON.
pub open spec fn entries_tellable(entries: Seq<NamedProperty>) -> bool
    decreases entries,
{
    entries.len() > 0 ==> entries_tellable(entries.drop_last()) && tellable(
        entries[entries.len() - 1].schema,
    )
}

/// The texts in a property's JSON.
pub(crate) proof fn lemma_words_found(p: PropertySchema)
    ensures
        property_json(p).member("type"@) == unless_empty(p.property_type@),
        property_json(p).member("description"@) == some_text(text_view(p.description)),
        property_json(p).member("format"@) == some_text(text_view(p.format)),
        property_json(p).member("pattern"@) == some_text(text_view(p.pattern)),
        property_json(p).member("$ref"@) == some_text(text_view(p.ref_path)),
{
    broadcast use group_find_apart;

    lemma_property_keys_differ();
}

/// The schemas in a property's JSON.
pub(crate) proof fn lemma_nested_found(p: PropertySchema)
    ensures
        property_json(p).member("items"@) == some_property(p.items),
        property_json(p).member("properties"@) == some_map(p.properties),
        property_json(p).member("oneOf"@) == some_schemas(p.one_of),
        property_json(p).member("anyOf"@) == some_schemas(p.any_of),
        property_json(p).member("allOf"@) == some_schemas(p.all_of),
{
    broadcast use group_find_apart;

    lemma_property_keys_differ();
}

/// The values in a property's JSON.
pub(crate) proof fn lemma_values_found(p: PropertySchema)
    ensures
        property_json(p).member("enum"@) == some_items(p.enum_values),
        property_json(p).member("const"@) == option_view(p.const_value),
        property_json(p).member("default"@) == option_view(p.default_value),
        property_json(p).member("required"@) == some_texts(p.required),
        property_json(p).member("additionalProperties"@) == some_bool(p.additional_properties),
{
    broadcast use group_find_apart;

    lemma_property_keys_differ();
}

/// The bounds in a property's JSON.
pub(crate) proof fn lemma_bounds_found(p: PropertySchema)
    ensures
        property_json(p).member("minimum"@) == some_float(p.minimum),
        property_json(p).member("maximum"@) == some_float(p.maximum),
        property_json(p).member("minLength"@) == some_unsigned(p.min_length),
        property_json(p).member("maxLength"@) == some_unsigned(p.max_length),
        property_json(p).member("minItems"@) == some_unsigned(p.min_items),
        property_json(p).member("maxItems"@) == some_unsigned(p.max_items),
{
    broadcast use group_find_apart;

    lemma_property_keys_differ();
}

/// Members of which none is missing or `null` read as they are.
proof fn lemma_written_plain(p: PropertySchema)
    requires
        option_view(p.const_value) != Some(JsonView::Null),
        option_view(p.default_value) != Some(JsonView::Null),
        p.minimum != Some(Float::NotFinite),
        p.maximum != Some(Float::NotFinite),
    ensures
        has_plain_fields(property_json(p)),
        property_said(
            property_json(p),
            some_property(p.items),
            some_map(p.properties),
            some_schemas(p.one_of),
            some_schemas(p.any_of),
            some_schemas(p.all_of),
        ) == property_json(p),
{
    lemma_words_found(p);
    lemma_values_found(p);
    lemma_bounds_found(p);
    reveal(plain_as_said);
    reveal_strlit("");
    assert(p.property_type@.len() == 0 ==> unless_empty(p.property_type@) == unless_empty(""@));
    assert(plain_as_said(p, property_json(p)));
    lemma_plain_as_said(
        p,
        p,
        property_json(p),
        some_property(p.items),
        some_map(p.properties),
        some_schemas(p.one_of),
        some_schemas(p.any_of),
        some_schemas(p.all_of),
    );
}

/// Reading what was written gives a property back that is written the same.
#[verifier::spinoff_prover]
#[verifier::rlimit(40)]
pub proof fn written_property_reads_back(p: PropertySchema)
    requires
        tellable(p),
    ensures
        property_read(property_json(p)) == Some(property_json(p)),
    decreases p,
{
    lemma_written_plain(p);
    lemma_nested_found(p);
    lemma_property_read(property_json(p));
    match p.items {
        Some(inner) => {
            written_property_reads_back(*inner);
        },
        None => {},
    }
    match p.properties {
        Some(map) => {
            lemma_written_map(map.listed());
        },
        None => {},
    }
    match p.one_of {
        Some(list) => {
            lemma_written_list(list@);
        },
        None => {},
    }
    match p.any_of {
        Some(list) => {
            lemma_written_list(list@);
        },
        None => {},
    }
    match p.all_of {
        Some(list) => {
            lemma_written_list(list@);
        },
        None => {},
    }
}

proof fn lemma_written_list(list: Seq<PropertySchema>)
    requires
        list_tellable(list),
    ensures
        list_read(schema_items(list)) == Some(schema_items(list)),
    decreases list,
{
    if list.len() > 0 {
        lemma_written_list(list.drop_last());
        written_property_reads_back(list[list.len() - 1]);
        let written = schema_items(list);
        assert(written.drop_last() =~= schema_items(list.drop_last()));
        assert(written[written.len() - 1] == property_json(list[list.len() - 1]));
    }
}

proof fn lemma_written_map(entries: Seq<NamedProperty>)
    requires
        entries_tellable(entries),
        forall|i: int, j: int|
            0 <= i < j < entries.len() ==> lex_less(entries[i].name@, entries[j].name@),
    ensures
        map_read(map_members(entries)) == Some(map_members(entries)),
    decreases entries,
{
    if entries.len() > 0 {
        let front = entries.drop_last();
        assert forall|i: int, j: int| 0 <= i < j < front.len() implies lex_less(
            front[i].name@,
            front[j].name@,
        ) by {
            assert(front[i] == entries[i] && front[j] == entries[j]);
        }
        lemma_written_map(front);
        written_property_reads_back(entries[entries.len() - 1].schema);
        lemma_map_members(entries);
        lemma_map_members(front);
        let written = map_members(entries);
        assert(written.drop_last() =~= map_members(front));
        assert(written[written.len() - 1] == (
            entries[entries.len() - 1].name@,
            property_json(entries[entries.len() - 1].schema),
        ));
        if front.len() > 0 {
            let last = front.len() - 1;
            assert(map_members(front)[last].0 == front[last].name@);
            assert(front[last] == entries[last]);
            assert(lex_less(entries[last].name@, entries[entries.len() - 1].name@));
        }
    }
}

/// Whether a schema can be told from its JSON.
pub open spec fn schema_tellable(schema: JsonSchema) -> bool {
    &&& match schema.properties {
        Some(map) => map.sorted() && entries_tellable(map.listed()),
        None => true,
    }
    &&& match schema.defs {
        Some(map) => map.sorted() && entries_tellable(map.listed()),
        None => true,
    }
    &&& match schema.one_of {
        Some(list) => list_tellable(list@),
        None => true,
    }
    &&& match schema.any_of {
        Some(list) => list_tellable(list@),
        None => true,
    }
    &&& match schema.all_of {
        Some(list) => list_tellable(list@),
        None => true,
    }
}

/// The words in a schema's JSON.
pub(crate) proof fn lemma_schema_words_found(schema: JsonSchema)
    ensures
        schema.wire().member("$schema"@) == some_text(text_view(schema.schema_dialect)),
        schema.wire().member("type"@) == unless_empty(schema.schema_type@),
        schema.wire().member("description"@) == some_text(text_view(schema.description)),
        schema.wire().member("required"@) == some_texts(schema.required),
        schema.wire().member("additionalProperties"@) == some_bool(schema.additional_properties),
{
    broadcast use group_find_apart;

    lemma_schema_keys_differ();
}

/// The schemas in a schema's JSON.
pub(crate) proof fn lemma_schema_nested_found(schema: JsonSchema)
    ensures
        schema.wire().member("properties"@) == some_map(schema.properties),
        schema.wire().member("$defs"@) == some_map(schema.defs),
        schema.wire().member("oneOf"@) == some_schemas(schema.one_of),
        schema.wire().member("anyOf"@) == some_schemas(schema.any_of),
        schema.wire().member("allOf"@) == some_schemas(schema.all_of),
{
    broadcast use group_find_apart;

    lemma_schema_keys_differ();
}

/// Reading what was written gives a schema back that is written the same.
pub proof fn written_schema_reads_back(schema: JsonSchema)
    requires
        schema_tellable(schema),
    ensures
        schema_read(schema.wire()) == Some(schema.wire()),
{
    lemma_schema_words_found(schema);
    lemma_schema_nested_found(schema);
    reveal_strlit("");
    match schema.properties {
        Some(map) => {
            lemma_written_map(map.listed());
        },
        None => {},
    }
    match schema.defs {
        Some(map) => {
            lemma_written_map(map.listed());
        },
        None => {},
    }
    match schema.one_of {
        Some(list) => {
            lemma_written_list(list@);
        },
        None => {},
    }
    match schema.any_of {
        Some(list) => {
            lemma_written_list(list@);
        },
        None => {},
    }
    match schema.all_of {
        Some(list) => {
            lemma_written_list(list@);
        },
        None => {},
    }
}

/// Reading what was written gives a tool back that is written the same.
pub proof fn written_tool_schema_reads_back(tool: ToolSchema)
    requires
        schema_tellable(tool.input_schema),
        tool.output_schema matches Some(schema) ==> schema_tellable(schema),
    ensures
        tool_schema_read(tool.wire()) == Some(tool.wire()),
{
    broadcast use group_find_member;

    lemma_tool_keys_differ();
    written_schema_reads_back(tool.input_schema);
    let output = match tool.output_schema {
        Some(schema) => Some(schema.wire()),
        None => None,
    };
    let json = tool.wire();
    assert(json.member("name"@) == Some(JsonView::Text(tool.name@)));
    assert(json.member("description"@) == Some(JsonView::Text(tool.description@)));
    assert(json.member("inputSchema"@) == Some(tool.input_schema.wire()));
    assert(json.member("outputSchema"@) == output);
    assert(json.member("annotations"@) == some_annotations(tool.annotations));
    assert(json.member("execution"@) == some_execution(tool.execution));
    match tool.output_schema {
        Some(schema) => {
            written_schema_reads_back(schema);
        },
        None => {},
    }
    match tool.annotations {
        Some(hints) => {
            written_hints_read_back(hints);
        },
        None => {},
    }
    match tool.execution {
        Some(execution) => {
            lemma_support_words_differ();
            assert(execution.wire().member("taskSupport"@) == Some(
                JsonView::Text(execution.task_support.word()),
            ));
        },
        None => {},
    }
}

} // verus!
