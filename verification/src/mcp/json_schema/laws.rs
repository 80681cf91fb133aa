//! What holds of every typed schema: it is written with all that it says, and read as it stands.

use vstd::prelude::*;

use crate::json::{
    find_member, group_find_apart, group_find_member, lemma_find_pushed, lemma_member_index,
    member_index, widened, Float, JsonView, NumberView,
};
use crate::mcp::json_schema::reading::{
    lemma_bounds_found, lemma_nested_found, lemma_property_keys_differ, lemma_schema_keys_differ,
    lemma_schema_nested_found, lemma_schema_words_found, lemma_values_found, lemma_words_found,
    list_read, map_read, property_read, put_in_order, schema_read, tool_schema_read,
};
use crate::mcp::json_schema::{
    in_key_order, lemma_map_members, map_members, property_json, schema_items, JsonSchema,
    NamedProperty, PropertySchema, SchemaMap, ToolSchema,
};
use crate::mcp::reading::laws::unless_null;
use crate::mcp::schema::lemma_tool_keys_differ;
use crate::text::{lemma_lex_total, lemma_lex_transitive, lex_less};

verus! {

// ---------------------------------------------------------------------------
// Writing
// ---------------------------------------------------------------------------

/// Whether a list is the JSON of these properties, each in its place.
pub open spec fn are_written(items: Seq<JsonView>, list: Seq<PropertySchema>) -> bool {
    &&& items.len() == list.len()
    &&& forall|i: int| 0 <= i < items.len() ==> #[trigger] items[i] == property_json(list[i])
}

/// Whether members are the JSON of these properties, each under its name.
pub open spec fn are_named(
    members: Seq<(Seq<char>, JsonView)>,
    entries: Seq<NamedProperty>,
) -> bool {
    &&& members.len() == entries.len()
    &&& forall|i: int|
        0 <= i < members.len() ==> #[trigger] members[i] == (
            entries[i].name@,
            property_json(entries[i].schema),
        )
}

proof fn lemma_items_written(list: Seq<PropertySchema>)
    ensures
        are_written(schema_items(list), list),
    decreases list.len(),
{
    if list.len() > 0 {
        lemma_items_written(list.drop_last());
        let items = schema_items(list);
        assert forall|i: int| 0 <= i < items.len() implies #[trigger] items[i] == property_json(
            list[i],
        ) by {
            if i < list.len() - 1 {
                assert(schema_items(list.drop_last())[i] == items[i]);
                assert(list.drop_last()[i] == list[i]);
            }
        }
    }
}

/// A property is written with its words.
pub proof fn properties_are_written_with_their_words(p: PropertySchema)
    ensures
        ({
            let json = property_json(p);
            &&& json is Object
            &&& json.member("type"@) == if p.property_type@.len() == 0 {
                None
            } else {
                Some(JsonView::Text(p.property_type@))
            }
            &&& json.member("description"@) == match p.description {
                Some(text) => Some(JsonView::Text(text@)),
                None => None,
            }
            &&& json.member("format"@) == match p.format {
                Some(text) => Some(JsonView::Text(text@)),
                None => None,
            }
            &&& json.member("pattern"@) == match p.pattern {
                Some(text) => Some(JsonView::Text(text@)),
                None => None,
            }
            &&& json.member("$ref"@) == match p.ref_path {
                Some(text) => Some(JsonView::Text(text@)),
                None => None,
            }
        }),
{
    lemma_words_found(p);
}

/// A property is written with the values it may have.
pub proof fn properties_are_written_with_their_values(p: PropertySchema)
    ensures
        ({
            let json = property_json(p);
            &&& p.required is None ==> json.member("required"@) is None
            &&& p.required matches Some(list) ==> (json.member("required"@) matches Some(
                JsonView::Array(items),
            ) && items.len() == list@.len() && (forall|i: int|
                0 <= i < items.len() ==> #[trigger] items[i] == JsonView::Text(list@[i]@)))
            &&& json.member("additionalProperties"@) == match p.additional_properties {
                Some(value) => Some(JsonView::Bool(value)),
                None => None,
            }
            &&& p.enum_values is None ==> json.member("enum"@) is None
            &&& p.enum_values matches Some(list) ==> (json.member("enum"@) matches Some(
                JsonView::Array(items),
            ) && items.len() == list@.len() && (forall|i: int|
                0 <= i < items.len() ==> #[trigger] items[i] == list@[i]@))
            &&& json.member("const"@) == match p.const_value {
                Some(value) => Some(value@),
                None => None,
            }
            &&& json.member("default"@) == match p.default_value {
                Some(value) => Some(value@),
                None => None,
            }
        }),
{
    lemma_values_found(p);
}

/// A property is written with its bounds.
pub proof fn properties_are_written_with_their_bounds(p: PropertySchema)
    ensures
        ({
            let json = property_json(p);
            &&& json.member("minimum"@) == match p.minimum {
                Some(Float::Finite(text)) => Some(JsonView::Number(NumberView::Float(text@))),
                Some(Float::NotFinite) => Some(JsonView::Null),
                None => None,
            }
            &&& json.member("maximum"@) == match p.maximum {
                Some(Float::Finite(text)) => Some(JsonView::Number(NumberView::Float(text@))),
                Some(Float::NotFinite) => Some(JsonView::Null),
                None => None,
            }
            &&& json.member("minLength"@) == match p.min_length {
                Some(n) => Some(JsonView::Number(NumberView::Unsigned(n))),
                None => None,
            }
            &&& json.member("maxLength"@) == match p.max_length {
                Some(n) => Some(JsonView::Number(NumberView::Unsigned(n))),
                None => None,
            }
            &&& json.member("minItems"@) == match p.min_items {
                Some(n) => Some(JsonView::Number(NumberView::Unsigned(n))),
                None => None,
            }
            &&& json.member("maxItems"@) == match p.max_items {
                Some(n) => Some(JsonView::Number(NumberView::Unsigned(n))),
                None => None,
            }
        }),
{
    lemma_bounds_found(p);
}

/// A property is written with the schemas that are nested in it.
pub proof fn properties_are_written_with_what_is_nested(p: PropertySchema)
    ensures
        ({
            let json = property_json(p);
            &&& json.member("items"@) == match p.items {
                Some(inner) => Some(property_json(*inner)),
                None => None,
            }
            &&& p.properties is None ==> json.member("properties"@) is None
            &&& p.properties matches Some(map) ==> (json.member("properties"@) matches Some(
                JsonView::Object(members),
            ) && are_named(members, map.listed()))
            &&& p.one_of is None ==> json.member("oneOf"@) is None
            &&& p.one_of matches Some(list) ==> (json.member("oneOf"@) matches Some(
                JsonView::Array(items),
            ) && are_written(items, list@))
            &&& p.any_of is None ==> json.member("anyOf"@) is None
            &&& p.any_of matches Some(list) ==> (json.member("anyOf"@) matches Some(
                JsonView::Array(items),
            ) && are_written(items, list@))
            &&& p.all_of is None ==> json.member("allOf"@) is None
            &&& p.all_of matches Some(list) ==> (json.member("allOf"@) matches Some(
                JsonView::Array(items),
            ) && are_written(items, list@))
        }),
{
    lemma_nested_found(p);
    lemma_nested_parts(p.properties, p.one_of, p.any_of, p.all_of);
}

proof fn lemma_nested_parts(
    map: Option<SchemaMap>,
    one_of: Option<Vec<PropertySchema>>,
    any_of: Option<Vec<PropertySchema>>,
    all_of: Option<Vec<PropertySchema>>,
)
    ensures
        map matches Some(map) ==> are_named(map_members(map.listed()), map.listed()),
        one_of matches Some(list) ==> are_written(schema_items(list@), list@),
        any_of matches Some(list) ==> are_written(schema_items(list@), list@),
        all_of matches Some(list) ==> are_written(schema_items(list@), list@),
{
    match map {
        Some(map) => {
            lemma_map_members(map.listed());
        },
        None => {},
    }
    match one_of {
        Some(list) => {
            lemma_items_written(list@);
        },
        None => {},
    }
    match any_of {
        Some(list) => {
            lemma_items_written(list@);
        },
        None => {},
    }
    match all_of {
        Some(list) => {
            lemma_items_written(list@);
        },
        None => {},
    }
}

/// A schema is written with all that it says.
pub proof fn schemas_are_written_whole(schema: JsonSchema)
    ensures
        ({
            let json = schema.wire();
            &&& json.member("$schema"@) == match schema.schema_dialect {
                Some(text) => Some(JsonView::Text(text@)),
                None => None,
            }
            &&& json.member("type"@) == if schema.schema_type@.len() == 0 {
                None
            } else {
                Some(JsonView::Text(schema.schema_type@))
            }
            &&& json.member("description"@) == match schema.description {
                Some(text) => Some(JsonView::Text(text@)),
                None => None,
            }
            &&& schema.required is None ==> json.member("required"@) is None
            &&& schema.required matches Some(list) ==> (json.member("required"@) matches Some(
                JsonView::Array(items),
            ) && items.len() == list@.len() && (forall|i: int|
                0 <= i < items.len() ==> #[trigger] items[i] == JsonView::Text(list@[i]@)))
            &&& json.member("additionalProperties"@) == match schema.additional_properties {
                Some(value) => Some(JsonView::Bool(value)),
                None => None,
            }
            &&& schema.properties is None ==> json.member("properties"@) is None
            &&& schema.properties matches Some(map) ==> (json.member("properties"@) matches Some(
                JsonView::Object(members),
            ) && are_named(members, map.listed()))
            &&& schema.defs is None ==> json.member("$defs"@) is None
            &&& schema.defs matches Some(map) ==> (json.member("$defs"@) matches Some(
                JsonView::Object(members),
            ) && are_named(members, map.listed()))
            &&& schema.one_of is None ==> json.member("oneOf"@) is None
            &&& schema.one_of matches Some(list) ==> (json.member("oneOf"@) matches Some(
                JsonView::Array(items),
            ) && are_written(items, list@))
            &&& schema.any_of is None ==> json.member("anyOf"@) is None
            &&& schema.any_of matches Some(list) ==> (json.member("anyOf"@) matches Some(
                JsonView::Array(items),
            ) && are_written(items, list@))
            &&& schema.all_of is None ==> json.member("allOf"@) is None
            &&& schema.all_of matches Some(list) ==> (json.member("allOf"@) matches Some(
                JsonView::Array(items),
            ) && are_written(items, list@))
        }),
{
    lemma_schema_words_found(schema);
    lemma_schema_nested_found(schema);
    lemma_nested_parts(schema.properties, schema.one_of, schema.any_of, schema.all_of);
    lemma_nested_parts(schema.defs, None, None, None);
}

/// A tool is written with its name, what it does, its schemas, its hints and what it declares.
pub proof fn tools_are_written_with_their_schemas(tool: ToolSchema)
    ensures
        ({
            let json = tool.wire();
            &&& json.member("name"@) == Some(JsonView::Text(tool.name@))
            &&& json.member("description"@) == Some(JsonView::Text(tool.description@))
            &&& json.member("inputSchema"@) == Some(tool.input_schema.wire())
            &&& json.member("outputSchema"@) == match tool.output_schema {
                Some(schema) => Some(schema.wire()),
                None => None,
            }
            &&& json.member("annotations"@) == match tool.annotations {
                Some(hints) => Some(hints.wire()),
                None => None,
            }
            &&& json.member("execution"@) == match tool.execution {
                Some(execution) => Some(execution.wire()),
                None => None,
            }
        }),
{
    broadcast use group_find_member;

    lemma_tool_keys_differ();
}

// ---------------------------------------------------------------------------
// Reading
// ---------------------------------------------------------------------------

/// A list of properties is read when each of them is, and each in its place.
pub proof fn lists_are_read_item_by_item(list: Seq<JsonView>)
    ensures
        list_read(list) is Some <==> forall|i: int|
            0 <= i < list.len() ==> property_read(#[trigger] list[i]) is Some,
        list_read(list) matches Some(said) ==> said.len() == list.len() && (forall|i: int|
            0 <= i < list.len() ==> Some(said[i]) == property_read(#[trigger] list[i])),
    decreases list.len(),
{
    if list.len() > 0 {
        let before = list.drop_last();
        let last = list.len() - 1;
        lists_are_read_item_by_item(before);
        assert forall|i: int| 0 <= i < last implies #[trigger] before[i] == list[i] by {}
        if list_read(list) is Some {
            assert forall|i: int| 0 <= i < list.len() implies Some(list_read(list)->0[i])
                == property_read(#[trigger] list[i]) by {
                if i < last {
                    assert(before[i] == list[i]);
                }
            }
        } else if forall|i: int|
            0 <= i < list.len() ==> property_read(#[trigger] list[i]) is Some {
            assert forall|i: int| 0 <= i < before.len() implies property_read(
                #[trigger] before[i],
            ) is Some by {
                assert(before[i] == list[i]);
            }
            assert(property_read(list[last]) is Some);
        }
    }
}

/// A map of properties is read when each of them is; each is found under its name, the last
/// where a name stands twice, and the names come out in order.
pub proof fn maps_are_read_member_by_member(
    members: Seq<(Seq<char>, JsonView)>,
    key: Seq<char>,
)
    ensures
        map_read(members) is Some <==> forall|i: int|
            0 <= i < members.len() ==> property_read((#[trigger] members[i]).1) is Some,
        map_read(members) matches Some(said) ==> in_key_order(said),
        map_read(members) matches Some(said) ==> forall|i: int|
            0 <= i < members.len() && (#[trigger] members[i]).0 == key && (forall|k: int|
                i < k < members.len() ==> (#[trigger] members[k]).0 != key) ==> find_member(
                said,
                key,
            ) == property_read(members[i].1),
        map_read(members) matches Some(said) ==> ((forall|i: int|
            0 <= i < members.len() ==> (#[trigger] members[i]).0 != key) ==> find_member(said, key)
            is None),
    decreases members.len(),
{
    if members.len() > 0 {
        let front = members.drop_last();
        let last = members.len() - 1;
        maps_are_read_member_by_member(front, key);
        assert forall|i: int| 0 <= i < last implies #[trigger] front[i] == members[i] by {}
        if map_read(members) is Some {
            let before = map_read(front)->0;
            let value = property_read(members[last].1)->0;
            let said = map_read(members)->0;
            lemma_put(before, members[last].0, value, key);
            assert forall|i: int| 0 <= i < members.len() implies property_read(
                (#[trigger] members[i]).1,
            ) is Some by {
                if i < last {
                    assert(front[i] == members[i]);
                }
            }
            assert forall|i: int|
                0 <= i < members.len() && (#[trigger] members[i]).0 == key && (forall|k: int|
                    i < k < members.len() ==> (#[trigger] members[k]).0
                        != key) implies find_member(said, key) == property_read(members[i].1) by {
                if i < last {
                    assert(members[last].0 != key);
                    assert(front[i] == members[i]);
                    assert forall|k: int| i < k < front.len() implies (#[trigger] front[k]).0
                        != key by {
                        assert(front[k] == members[k]);
                    }
                }
            }
            if forall|i: int| 0 <= i < members.len() ==> (#[trigger] members[i]).0 != key {
                assert(members[last].0 != key);
                assert forall|i: int| 0 <= i < front.len() implies (#[trigger] front[i]).0 != key by {
                    assert(front[i] == members[i]);
                }
            }
        } else if forall|i: int|
            0 <= i < members.len() ==> property_read((#[trigger] members[i]).1) is Some {
            assert forall|i: int| 0 <= i < front.len() implies property_read(
                (#[trigger] front[i]).1,
            ) is Some by {
                assert(front[i] == members[i]);
            }
            assert(property_read(members[last].1) is Some);
        }
    }
}

/// A member that is put in its place is found there, and every other as before.
proof fn lemma_put(
    members: Seq<(Seq<char>, JsonView)>,
    name: Seq<char>,
    value: JsonView,
    key: Seq<char>,
)
    requires
        in_key_order(members),
    ensures
        in_key_order(put_in_order(members, name, value)),
        find_member(put_in_order(members, name, value), key) == if key == name {
            Some(value)
        } else {
            find_member(members, key)
        },
        forall|i: int|
            0 <= i < put_in_order(members, name, value).len() ==> {
                let own = (#[trigger] put_in_order(members, name, value)[i]).0;
                own == name || (exists|k: int|
                    0 <= k < members.len() && (#[trigger] members[k]).0 == own)
            },
    decreases members.len(),
{
    let after = put_in_order(members, name, value);
    if members.len() == 0 {
        assert(members =~= Seq::empty());
        lemma_find_pushed(members, (name, value), key);
    } else {
        let front = members.drop_last();
        let last = members.last();
        assert(members =~= front.push(last));
        lemma_find_pushed(front, last, key);
        lemma_lex_total(last.0, name);
        assert forall|k: int| 0 <= k < front.len() implies lex_less((#[trigger] front[k]).0, last.0) by {
            assert(front[k] == members[k]);
            assert(members[members.len() - 1] == last);
        }
        lemma_absent_before(front, last.0);
        if lex_less(last.0, name) {
            lemma_find_pushed(members, (name, value), key);
            lemma_all_before(members, name);
            lemma_absent_before(members, name);
            assert forall|i: int| 0 <= i < members.len() implies (#[trigger] after[i]).0
                == members[i].0 by {}
        } else if last.0 == name {
            lemma_find_pushed(front, (name, value), key);
            assert forall|i: int| 0 <= i < front.len() implies (#[trigger] after[i]).0
                == members[i].0 by {}
        } else {
            let inner = put_in_order(front, name, value);
            lemma_put(front, name, value, key);
            lemma_put(front, name, value, last.0);
            lemma_find_pushed(inner, last, key);
            assert forall|i: int| 0 <= i < inner.len() implies lex_less((#[trigger] inner[i]).0, last.0) by {
                let own = inner[i].0;
                if own != name {
                    let k = choose|k: int| 0 <= k < front.len() && (#[trigger] front[k]).0 == own;
                    assert(lex_less(front[k].0, last.0));
                }
            }
            assert forall|i: int| 0 <= i < after.len() implies ({
                let own = (#[trigger] after[i]).0;
                own == name || (exists|k: int|
                    0 <= k < members.len() && (#[trigger] members[k]).0 == own)
            }) by {
                if i < inner.len() {
                    assert(after[i] == inner[i]);
                    let own = inner[i].0;
                    if own != name {
                        let k = choose|k: int| 0 <= k < front.len() && (#[trigger] front[k]).0 == own;
                        assert(members[k].0 == own);
                    }
                } else {
                    assert(members[members.len() - 1].0 == after[i].0);
                }
            }
        }
    }
}

proof fn lemma_all_before(members: Seq<(Seq<char>, JsonView)>, name: Seq<char>)
    requires
        in_key_order(members),
        members.len() > 0,
        lex_less(members.last().0, name),
    ensures
        forall|k: int| 0 <= k < members.len() ==> lex_less((#[trigger] members[k]).0, name),
{
    let last = members.len() - 1;
    assert forall|k: int| 0 <= k < members.len() implies lex_less((#[trigger] members[k]).0, name) by {
        if k < last {
            assert(lex_less(members[k].0, members[last].0));
            lemma_lex_transitive(members[k].0, members[last].0, name);
        }
    }
}

proof fn lemma_absent_before(members: Seq<(Seq<char>, JsonView)>, name: Seq<char>)
    requires
        forall|k: int| 0 <= k < members.len() ==> lex_less((#[trigger] members[k]).0, name),
    ensures
        find_member(members, name) is None,
{
    lemma_member_index(members, name);
    lemma_lex_total(name, name);
    let at = member_index(members, name);
    if at < members.len() {
        assert(lex_less(members[at].0, name));
    }
}

/// A property is read when each of its members is of its kind, and what is nested can be read.
pub proof fn properties_are_read_when_of_their_kind(json: JsonView)
    requires
        json is Object,
    ensures
        property_read(json) is Some <==> {
            &&& (json.member("type"@) matches Some(value) ==> value is Text)
            &&& (json.member("description"@) matches Some(value) ==> value is Null || value is Text)
            &&& (json.member("items"@) matches Some(value) ==> value is Null || property_read(
                value,
            ) is Some)
            &&& (json.member("properties"@) matches Some(value) ==> value is Null || (
            value matches JsonView::Object(members) && map_read(members) is Some))
            &&& (json.member("required"@) matches Some(value) ==> value is Null || (
            value matches JsonView::Array(items) && forall|i: int|
                0 <= i < items.len() ==> (#[trigger] items[i]) is Text))
            &&& (json.member("additionalProperties"@) matches Some(value) ==> value is Null
                || value is Bool)
            &&& (json.member("enum"@) matches Some(value) ==> value is Null || value is Array)
            &&& (json.member("format"@) matches Some(value) ==> value is Null || value is Text)
            &&& (json.member("pattern"@) matches Some(value) ==> value is Null || value is Text)
            &&& (json.member("minimum"@) matches Some(value) ==> value is Null || value is Number)
            &&& (json.member("maximum"@) matches Some(value) ==> value is Null || value is Number)
            &&& (json.member("minLength"@) matches Some(value) ==> value is Null || (
            value matches JsonView::Number(NumberView::Unsigned(_))))
            &&& (json.member("maxLength"@) matches Some(value) ==> value is Null || (
            value matches JsonView::Number(NumberView::Unsigned(_))))
            &&& (json.member("minItems"@) matches Some(value) ==> value is Null || (
            value matches JsonView::Number(NumberView::Unsigned(_))))
            &&& (json.member("maxItems"@) matches Some(value) ==> value is Null || (
            value matches JsonView::Number(NumberView::Unsigned(_))))
            &&& (json.member("$ref"@) matches Some(value) ==> value is Null || value is Text)
            &&& (json.member("oneOf"@) matches Some(value) ==> value is Null || (
            value matches JsonView::Array(list) && list_read(list) is Some))
            &&& (json.member("anyOf"@) matches Some(value) ==> value is Null || (
            value matches JsonView::Array(list) && list_read(list) is Some))
            &&& (json.member("allOf"@) matches Some(value) ==> value is Null || (
            value matches JsonView::Array(list) && list_read(list) is Some))
        },
{
}

/// The words of a property are read as they stand.
pub proof fn the_words_of_properties_are_read(json: JsonView, said: JsonView)
    requires
        json is Object,
        property_read(json) == Some(said),
    ensures
        ({
            &&& said is Object
            &&& said.member("type"@) == match json.member("type"@) {
                Some(JsonView::Text(text)) => if text.len() == 0 {
                    None
                } else {
                    Some(JsonView::Text(text))
                },
                _ => None,
            }
            &&& said.member("description"@) == unless_null(json.member("description"@))
            &&& said.member("format"@) == unless_null(json.member("format"@))
            &&& said.member("pattern"@) == unless_null(json.member("pattern"@))
            &&& said.member("$ref"@) == unless_null(json.member("$ref"@))
        }),
{
    broadcast use group_find_apart;

    lemma_property_keys_differ();
}

/// The values of a property are read as they stand.
pub proof fn the_values_of_properties_are_read(json: JsonView, said: JsonView)
    requires
        json is Object,
        property_read(json) == Some(said),
    ensures
        ({
            &&& said.member("required"@) == unless_null(json.member("required"@))
            &&& said.member("additionalProperties"@) == unless_null(json.member("additionalProperties"@))
            &&& said.member("enum"@) == unless_null(json.member("enum"@))
            &&& said.member("const"@) == unless_null(json.member("const"@))
            &&& said.member("default"@) == unless_null(json.member("default"@))
        }),
{
    broadcast use group_find_apart;

    lemma_property_keys_differ();
}

/// The bounds of a property are read as they stand; least and greatest values as floating-point
/// numbers.
pub proof fn the_bounds_of_properties_are_read(json: JsonView, said: JsonView)
    requires
        json is Object,
        property_read(json) == Some(said),
    ensures
        ({
            &&& said.member("minLength"@) == unless_null(json.member("minLength"@))
            &&& said.member("maxLength"@) == unless_null(json.member("maxLength"@))
            &&& said.member("minItems"@) == unless_null(json.member("minItems"@))
            &&& said.member("maxItems"@) == unless_null(json.member("maxItems"@))
            &&& said.member("minimum"@) == match json.member("minimum"@) {
                Some(JsonView::Number(NumberView::Float(text))) => Some(
                    JsonView::Number(NumberView::Float(text)),
                ),
                Some(JsonView::Number(NumberView::Unsigned(n))) => Some(
                    JsonView::Number(NumberView::Float(widened(n as int))),
                ),
                Some(JsonView::Number(NumberView::Negative(n))) => Some(
                    JsonView::Number(NumberView::Float(widened(n as int))),
                ),
                _ => None,
            }
            &&& said.member("maximum"@) == match json.member("maximum"@) {
                Some(JsonView::Number(NumberView::Float(text))) => Some(
                    JsonView::Number(NumberView::Float(text)),
                ),
                Some(JsonView::Number(NumberView::Unsigned(n))) => Some(
                    JsonView::Number(NumberView::Float(widened(n as int))),
                ),
                Some(JsonView::Number(NumberView::Negative(n))) => Some(
                    JsonView::Number(NumberView::Float(widened(n as int))),
                ),
                _ => None,
            }
        }),
{
    broadcast use group_find_apart;

    lemma_property_keys_differ();
}

/// What is nested in a property is read in its place.
pub proof fn what_is_nested_in_properties_is_read(json: JsonView, said: JsonView)
    requires
        json is Object,
        property_read(json) == Some(said),
    ensures
        ({
            &&& said.member("items"@) == match json.member("items"@) {
                Some(value) => if value is Null {
                    None
                } else {
                    property_read(value)
                },
                None => None,
            }
            &&& said.member("properties"@) == match json.member("properties"@) {
                Some(JsonView::Object(members)) => Some(JsonView::Object(map_read(members)->0)),
                _ => None,
            }
            &&& said.member("oneOf"@) == match json.member("oneOf"@) {
                Some(JsonView::Array(list)) => Some(JsonView::Array(list_read(list)->0)),
                _ => None,
            }
            &&& said.member("anyOf"@) == match json.member("anyOf"@) {
                Some(JsonView::Array(list)) => Some(JsonView::Array(list_read(list)->0)),
                _ => None,
            }
            &&& said.member("allOf"@) == match json.member("allOf"@) {
                Some(JsonView::Array(list)) => Some(JsonView::Array(list_read(list)->0)),
                _ => None,
            }
        }),
{
    broadcast use group_find_apart;

    lemma_property_keys_differ();
}

/// A schema is read when each of its members is of its kind, and as it stands.
pub proof fn schemas_are_read_as_they_stand(json: JsonView)
    requires
        json is Object,
    ensures
        schema_read(json) is Some <==> {
            &&& (json.member("$schema"@) matches Some(value) ==> value is Null || value is Text)
            &&& (json.member("type"@) matches Some(value) ==> value is Text)
            &&& (json.member("description"@) matches Some(value) ==> value is Null || value is Text)
            &&& (json.member("properties"@) matches Some(value) ==> value is Null || (
            value matches JsonView::Object(members) && map_read(members) is Some))
            &&& (json.member("required"@) matches Some(value) ==> value is Null || (
            value matches JsonView::Array(items) && forall|i: int|
                0 <= i < items.len() ==> (#[trigger] items[i]) is Text))
            &&& (json.member("additionalProperties"@) matches Some(value) ==> value is Null
                || value is Bool)
            &&& (json.member("$defs"@) matches Some(value) ==> value is Null || (
            value matches JsonView::Object(members) && map_read(members) is Some))
            &&& (json.member("oneOf"@) matches Some(value) ==> value is Null || (
            value matches JsonView::Array(list) && list_read(list) is Some))
            &&& (json.member("anyOf"@) matches Some(value) ==> value is Null || (
            value matches JsonView::Array(list) && list_read(list) is Some))
            &&& (json.member("allOf"@) matches Some(value) ==> value is Null || (
            value matches JsonView::Array(list) && list_read(list) is Some))
        },
        schema_read(json) matches Some(said) ==> {
            &&& said.member("$schema"@) == unless_null(json.member("$schema"@))
            &&& said.member("type"@) == match json.member("type"@) {
                Some(JsonView::Text(text)) => if text.len() == 0 {
                    None
                } else {
                    Some(JsonView::Text(text))
                },
                _ => None,
            }
            &&& said.member("description"@) == unless_null(json.member("description"@))
            &&& said.member("required"@) == unless_null(json.member("required"@))
            &&& said.member("additionalProperties"@) == unless_null(json.member("additionalProperties"@))
        },
        schema_read(json) matches Some(said) ==> {
            &&& said.member("properties"@) == match json.member("properties"@) {
                Some(JsonView::Object(members)) => Some(JsonView::Object(map_read(members)->0)),
                _ => None,
            }
            &&& said.member("$defs"@) == match json.member("$defs"@) {
                Some(JsonView::Object(members)) => Some(JsonView::Object(map_read(members)->0)),
                _ => None,
            }
            &&& said.member("oneOf"@) == match json.member("oneOf"@) {
                Some(JsonView::Array(list)) => Some(JsonView::Array(list_read(list)->0)),
                _ => None,
            }
            &&& said.member("anyOf"@) == match json.member("anyOf"@) {
                Some(JsonView::Array(list)) => Some(JsonView::Array(list_read(list)->0)),
                _ => None,
            }
            &&& said.member("allOf"@) == match json.member("allOf"@) {
                Some(JsonView::Array(list)) => Some(JsonView::Array(list_read(list)->0)),
                _ => None,
            }
        },
{
    broadcast use group_find_apart;

    lemma_schema_keys_differ();
}

/// A tool with schemas is read with its name, what it does and its schemas.
pub proof fn tools_are_read_with_their_schemas(json: JsonView, said: JsonView)
    requires
        json is Object,
        tool_schema_read(json) == Some(said),
    ensures
        json.member("name"@) matches Some(JsonView::Text(_)),
        json.member("description"@) matches Some(JsonView::Text(_)),
        json.member("inputSchema"@) is Some,
        said.member("name"@) == json.member("name"@),
        said.member("description"@) == json.member("description"@),
        said.member("inputSchema"@) == schema_read(json.member("inputSchema"@)->0),
        said.member("outputSchema"@) == match json.member("outputSchema"@) {
            Some(value) => if value is Null {
                None
            } else {
                schema_read(value)
            },
            None => None,
        },
        said.member("annotations"@) is Some <==> unless_null(json.member("annotations"@)) is Some,
        said.member("execution"@) is Some <==> unless_null(json.member("execution"@)) is Some,
{
    broadcast use group_find_member;

    lemma_tool_keys_differ();
}

} // verus!
