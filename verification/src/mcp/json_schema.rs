//! JSON Schemas of tools, typed.
//!
//! A schema that is nothing but a reference or a composition has no type: an empty type is
//! left out. Maps of properties keep their keys in order, so that equal schemas become equal
//! JSON.

pub mod laws;
pub mod reading;

use vstd::prelude::*;

use crate::json::{
    and_some, dup_option, fields, find_member, item_views, lemma_find_pushed, lemma_member_index,
    member_index, member_views, no_members, option_view, put, put_some,
    put_some_bool, put_some_float, put_some_text, put_some_unsigned, put_text, some_bool, some_float,
    some_text, some_unsigned,
    text_list, text_view, Float, Json, JsonView, Member,
};
use crate::mcp::json_schema::reading::put_in_order;
use crate::mcp::schema::{
    annotations_json, execution_json, some_annotations, some_execution, ToolAnnotations,
    ToolExecution,
};
use crate::text::{lemma_lex_total, lemma_lex_transitive, lex_less, same, text_before, views};

verus! {

/// A property of a schema.
#[derive(Debug, Default)]
pub struct PropertySchema {
    /// Its type; none when empty.
    pub property_type: String,
    /// What it is, in words.
    pub description: Option<String>,
    /// What the items of an array are.
    pub items: Option<Box<PropertySchema>>,
    /// The properties of an object.
    pub properties: Option<SchemaMap>,
    /// The properties that an object must have.
    pub required: Option<Vec<String>>,
    /// Whether an object may have further properties.
    pub additional_properties: Option<bool>,
    /// The values it may have.
    pub enum_values: Option<Vec<Json>>,
    /// The one value it may have.
    pub const_value: Option<Json>,
    /// Its value when none is given.
    pub default_value: Option<Json>,
    /// What its text means.
    pub format: Option<String>,
    /// What its text must match.
    pub pattern: Option<String>,
    /// Its least value.
    pub minimum: Option<Float>,
    /// Its greatest value.
    pub maximum: Option<Float>,
    /// Its least length.
    pub min_length: Option<u64>,
    /// Its greatest length.
    pub max_length: Option<u64>,
    /// Its least number of items.
    pub min_items: Option<u64>,
    /// Its greatest number of items.
    pub max_items: Option<u64>,
    /// The schema it refers to.
    pub ref_path: Option<String>,
    /// Exactly one of these holds.
    pub one_of: Option<Vec<PropertySchema>>,
    /// At least one of these holds.
    pub any_of: Option<Vec<PropertySchema>>,
    /// All of these hold.
    pub all_of: Option<Vec<PropertySchema>>,
}

/// Properties by their names, in the order of their names.
#[derive(Debug)]
pub struct SchemaMap {
    entries: Vec<NamedProperty>,
}

/// A property with its name.
#[derive(Debug)]
pub struct NamedProperty {
    /// The name.
    pub name: String,
    /// The property.
    pub schema: PropertySchema,
}

/// A text member that is left out when it is empty.
pub open spec fn unless_empty(text: Seq<char>) -> Option<JsonView> {
    if text.len() == 0 {
        None
    } else {
        Some(JsonView::Text(text))
    }
}

/// A list of texts that may be absent.
pub open spec fn some_texts(texts: Option<Vec<String>>) -> Option<JsonView> {
    match texts {
        Some(texts) => Some(text_list(views(texts@))),
        None => None,
    }
}

/// A list of documents that may be absent.
pub open spec fn some_items(items: Option<Vec<Json>>) -> Option<JsonView> {
    match items {
        Some(items) => Some(JsonView::Array(item_views(items@))),
        None => None,
    }
}

/// The JSON of a property.
pub open spec fn property_json(p: PropertySchema) -> JsonView
    decreases p,
{
    property_object(
        p,
        match p.items {
            Some(inner) => Some(property_json(*inner)),
            None => None,
        },
        match p.properties {
            Some(map) => Some(JsonView::Object(map_members(map.listed()))),
            None => None,
        },
        match p.one_of {
            Some(list) => Some(JsonView::Array(schema_items(list@))),
            None => None,
        },
        match p.any_of {
            Some(list) => Some(JsonView::Array(schema_items(list@))),
            None => None,
        },
        match p.all_of {
            Some(list) => Some(JsonView::Array(schema_items(list@))),
            None => None,
        },
    )
}

/// The JSON of the entries of a map.
pub open spec fn map_members(entries: Seq<NamedProperty>) -> Seq<(Seq<char>, JsonView)>
    decreases entries,
{
    if entries.len() == 0 {
        Seq::empty()
    } else {
        map_members(entries.drop_last()).push(
            (
                entries[entries.len() - 1].name@,
                property_json(entries[entries.len() - 1].schema),
            ),
        )
    }
}

/// The JSON of the schemas of a list.
pub open spec fn schema_items(list: Seq<PropertySchema>) -> Seq<JsonView>
    decreases list,
{
    if list.len() == 0 {
        Seq::empty()
    } else {
        schema_items(list.drop_last()).push(property_json(list[list.len() - 1]))
    }
}

/// The JSON of a property, given that of what is nested in it.
pub open spec fn property_object(
    p: PropertySchema,
    items: Option<JsonView>,
    properties: Option<JsonView>,
    one_of: Option<JsonView>,
    any_of: Option<JsonView>,
    all_of: Option<JsonView>,
) -> JsonView {
    let a = and_some(fields(), "type"@, unless_empty(p.property_type@));
    let b = and_some(a, "description"@, some_text(text_view(p.description)));
    let c = and_some(b, "items"@, items);
    let d = and_some(c, "properties"@, properties);
    let e = and_some(d, "required"@, some_texts(p.required));
    let f = and_some(e, "additionalProperties"@, some_bool(p.additional_properties));
    let g = and_some(f, "enum"@, some_items(p.enum_values));
    let h = and_some(g, "const"@, option_view(p.const_value));
    let i = and_some(h, "default"@, option_view(p.default_value));
    let j = and_some(i, "format"@, some_text(text_view(p.format)));
    let k = and_some(j, "pattern"@, some_text(text_view(p.pattern)));
    let l = and_some(k, "minimum"@, some_float(p.minimum));
    let m = and_some(l, "maximum"@, some_float(p.maximum));
    let n = and_some(m, "minLength"@, some_unsigned(p.min_length));
    let o = and_some(n, "maxLength"@, some_unsigned(p.max_length));
    let q = and_some(o, "minItems"@, some_unsigned(p.min_items));
    let r = and_some(q, "maxItems"@, some_unsigned(p.max_items));
    let s = and_some(r, "$ref"@, some_text(text_view(p.ref_path)));
    let t = and_some(s, "oneOf"@, one_of);
    let u = and_some(t, "anyOf"@, any_of);
    JsonView::Object(and_some(u, "allOf"@, all_of))
}

pub(crate) fn dup_items(items: &Vec<Json>) -> (copy: Vec<Json>)
    ensures
        item_views(copy@) == item_views(items@),
{
    let mut copy: Vec<Json> = Vec::new();
    let mut i: usize = 0;
    while i < items.len()
        invariant
            i <= items.len(),
            copy.len() == i,
            forall|k: int| 0 <= k < i ==> (#[trigger] copy@[k])@ == items@[k]@,
        decreases items.len() - i,
    {
        copy.push(items[i].dup());
        i += 1;
    }
    assert(item_views(copy@) =~= item_views(items@));
    copy
}

fn put_unless_empty(members: &mut Vec<Member>, key: &str, text: &str)
    ensures
        member_views(final(members)@) == and_some(
            member_views(old(members)@),
            key@,
            unless_empty(text@),
        ),
{
    if !text.is_empty() {
        put_text(members, key, text);
    }
}

fn put_some_texts(members: &mut Vec<Member>, key: &str, texts: &Option<Vec<String>>)
    ensures
        member_views(final(members)@) == and_some(
            member_views(old(members)@),
            key@,
            some_texts(*texts),
        ),
{
    match texts {
        Some(texts) => put(members, key, Json::texts(texts)),
        None => {},
    }
}

fn put_some_items(members: &mut Vec<Member>, key: &str, items: &Option<Vec<Json>>)
    ensures
        member_views(final(members)@) == and_some(
            member_views(old(members)@),
            key@,
            some_items(*items),
        ),
{
    match items {
        Some(items) => put(members, key, Json::array(dup_items(items))),
        None => {},
    }
}

impl PropertySchema {
    /// The JSON that stands for it.
    pub fn to_json(&self) -> (json: Json)
        ensures
            json@ == property_json(*self),
        decreases *self,
    {
        let items = match &self.items {
            Some(inner) => Some(inner.to_json()),
            None => None,
        };
        let properties = match &self.properties {
            Some(map) => Some(entries_json(&map.entries)),
            None => None,
        };
        let one_of = match &self.one_of {
            Some(list) => Some(schemas_json(list)),
            None => None,
        };
        let any_of = match &self.any_of {
            Some(list) => Some(schemas_json(list)),
            None => None,
        };
        let all_of = match &self.all_of {
            Some(list) => Some(schemas_json(list)),
            None => None,
        };
        let mut members = no_members();
        put_unless_empty(&mut members, "type", self.property_type.as_str());
        put_some_text(&mut members, "description", &self.description);
        put_some(&mut members, "items", items);
        put_some(&mut members, "properties", properties);
        put_some_texts(&mut members, "required", &self.required);
        put_some_bool(&mut members, "additionalProperties", self.additional_properties);
        put_some_items(&mut members, "enum", &self.enum_values);
        put_some(&mut members, "const", dup_option(&self.const_value));
        put_some(&mut members, "default", dup_option(&self.default_value));
        put_some_text(&mut members, "format", &self.format);
        put_some_text(&mut members, "pattern", &self.pattern);
        put_some_float(&mut members, "minimum", &self.minimum);
        put_some_float(&mut members, "maximum", &self.maximum);
        put_some_unsigned(&mut members, "minLength", self.min_length);
        put_some_unsigned(&mut members, "maxLength", self.max_length);
        put_some_unsigned(&mut members, "minItems", self.min_items);
        put_some_unsigned(&mut members, "maxItems", self.max_items);
        put_some_text(&mut members, "$ref", &self.ref_path);
        put_some(&mut members, "oneOf", one_of);
        put_some(&mut members, "anyOf", any_of);
        put_some(&mut members, "allOf", all_of);
        Json::object(members)
    }
}

fn entries_json(entries: &Vec<NamedProperty>) -> (json: Json)
    ensures
        json@ == JsonView::Object(map_members(entries@)),
    decreases *entries,
{
    let mut members = no_members();
    let mut i: usize = 0;
    while i < entries.len()
        invariant
            i <= entries.len(),
            member_views(members@) == map_members(entries@.take(i as int)),
        decreases entries.len() - i,
    {
        proof {
            assert(entries@.take(i + 1).drop_last() =~= entries@.take(i as int));
            assert(entries@.take(i + 1)[i as int] == entries@[i as int]);
            assert(decreases_to!(entries => entries@));
            assert(decreases_to!(entries@ => entries@[i as int]));
            assert(decreases_to!(entries@[i as int] => entries@[i as int].schema));
        }
        put(&mut members, entries[i].name.as_str(), entries[i].schema.to_json());
        i += 1;
    }
    assert(entries@.take(i as int) =~= entries@);
    Json::object(members)
}

fn schemas_json(list: &Vec<PropertySchema>) -> (json: Json)
    ensures
        json@ == JsonView::Array(schema_items(list@)),
    decreases *list,
{
    let mut items: Vec<Json> = Vec::new();
    let mut i: usize = 0;
    assert(item_views(items@) =~= Seq::<JsonView>::empty());
    while i < list.len()
        invariant
            i <= list.len(),
            item_views(items@) == schema_items(list@.take(i as int)),
        decreases list.len() - i,
    {
        let ghost before = item_views(items@);
        proof {
            assert(list@.take(i + 1).drop_last() =~= list@.take(i as int));
            assert(list@.take(i + 1)[i as int] == list@[i as int]);
            assert(decreases_to!(list => list@));
            assert(decreases_to!(list@ => list@[i as int]));
        }
        let item = list[i].to_json();
        items.push(item);
        assert(item_views(items@) =~= before.push(item@));
        i += 1;
    }
    assert(list@.take(i as int) =~= list@);
    Json::array(items)
}

// ---------------------------------------------------------------------------
// Maps
// ---------------------------------------------------------------------------

impl SchemaMap {
    /// The properties with their names, in order.
    pub closed spec fn listed(self) -> Seq<NamedProperty> {
        self.entries@
    }

    /// The names are in order, and none stands twice.
    pub open spec fn sorted(self) -> bool {
        forall|i: int, j: int|
            0 <= i < j < self.listed().len() ==> lex_less(
                self.listed()[i].name@,
                self.listed()[j].name@,
            )
    }

    #[verifier::type_invariant]
    spec fn in_order(self) -> bool {
        self.sorted()
    }

    /// The property of a name.
    pub open spec fn property(self, name: Seq<char>) -> Option<PropertySchema> {
        if exists|i: int| 0 <= i < self.listed().len() && #[trigger] self.listed()[i].name@ == name {
            let i = choose|i: int|
                0 <= i < self.listed().len() && #[trigger] self.listed()[i].name@ == name;
            Some(self.listed()[i].schema)
        } else {
            None
        }
    }

    /// No properties.
    pub fn new() -> (map: Self)
        ensures
            map.listed() == Seq::<NamedProperty>::empty(),
    {
        SchemaMap { entries: Vec::new() }
    }

    /// The properties with their names, in order.
    pub fn entries(&self) -> (entries: &Vec<NamedProperty>)
        ensures
            entries@ == self.listed(),
            self.sorted(),
    {
        proof {
            use_type_invariant(self);
        }
        &self.entries
    }

    /// Gives a name a property, in its place among the names.
    pub fn insert(&mut self, name: String, schema: PropertySchema)
        ensures
            final(self).sorted(),
            final(self).property(name@) == Some(schema),
            forall|other: Seq<char>|
                other != name@ ==> #[trigger] final(self).property(other) == old(self).property(
                    other,
                ),
            map_members(final(self).listed()) == put_in_order(
                map_members(old(self).listed()),
                name@,
                property_json(schema),
            ),
    {
        proof {
            use_type_invariant(&*self);
        }
        let ghost before = *self;
        let ghost key = name@;
        let mut at: usize = 0;
        while at < self.entries.len() && text_before(self.entries[at].name.as_str(), name.as_str())
            invariant
                at <= self.entries.len(),
                *self == before,
                forall|k: int| 0 <= k < at ==> lex_less(#[trigger] before.listed()[k].name@, key),
                key == name@,
            decreases self.entries.len() - at,
        {
            at += 1;
        }
        let found = at < self.entries.len() && same(
            self.entries[at].name.as_str(),
            name.as_str(),
        );
        let entry = NamedProperty { name, schema };
        let ghost added = entry;
        let mut entries: Vec<NamedProperty> = Vec::new();
        std::mem::swap(&mut self.entries, &mut entries);
        if found {
            entries.set(at, entry);
        } else {
            entries.insert(at, entry);
        }
        proof {
            let after = SchemaMap { entries };
            lemma_map_insert(before, after, at as int, added, found);
            lemma_insert_in_order(before, after, at as int, added, found);
        }
        self.entries = entries;
    }
}

impl Default for SchemaMap {
    fn default() -> (map: Self)
        ensures
            map.listed() == Seq::<NamedProperty>::empty(),
    {
        SchemaMap::new()
    }
}

/// Where a name stands among names that are in order, `put_in_order` puts it.
proof fn lemma_put_in_order(
    members: Seq<(Seq<char>, JsonView)>,
    at: int,
    name: Seq<char>,
    value: JsonView,
)
    requires
        0 <= at <= members.len(),
        forall|k: int| 0 <= k < at ==> lex_less(#[trigger] members[k].0, name),
        forall|k: int|
            at < k < members.len() ==> #[trigger] members[k].0 != name && !lex_less(
                members[k].0,
                name,
            ),
        at < members.len() ==> !lex_less(members[at].0, name),
    ensures
        put_in_order(members, name, value) == if at < members.len() && members[at].0 == name {
            members.update(at, (name, value))
        } else {
            members.insert(at, (name, value))
        },
    decreases members.len(),
{
    let found = at < members.len() && members[at].0 == name;
    if at == members.len() {
        assert(members.insert(at, (name, value)) =~= members.push((name, value)));
        if members.len() > 0 {
            assert(lex_less(members[members.len() - 1].0, name));
        }
    } else {
        let last = members.len() - 1;
        if last == at && found {
            assert(members.update(at, (name, value)) =~= members.drop_last().push((name, value)));
        } else {
            assert(!lex_less(members[last].0, name));
            assert(members[last].0 != name);
            let front = members.drop_last();
            assert forall|k: int| 0 <= k < front.len() implies front[k] == #[trigger] members[k] by {}
            lemma_put_in_order(front, at, name, value);
            if found {
                assert(members.update(at, (name, value)) =~= front.update(at, (name, value)).push(
                    members.last(),
                ));
            } else {
                assert(members.insert(at, (name, value)) =~= front.insert(at, (name, value)).push(
                    members.last(),
                ));
            }
        }
    }
}

/// The JSON of a map after an insertion.
proof fn lemma_insert_in_order(
    before: SchemaMap,
    after: SchemaMap,
    at: int,
    added: NamedProperty,
    found: bool,
)
    requires
        before.sorted(),
        0 <= at <= before.listed().len(),
        forall|k: int| 0 <= k < at ==> lex_less(#[trigger] before.listed()[k].name@, added.name@),
        at < before.listed().len() ==> !lex_less(before.listed()[at].name@, added.name@),
        found == (at < before.listed().len() && before.listed()[at].name@ == added.name@),
        found ==> after.listed() == before.listed().update(at, added),
        !found ==> after.listed() == before.listed().insert(at, added),
    ensures
        map_members(after.listed()) == put_in_order(
            map_members(before.listed()),
            added.name@,
            property_json(added.schema),
        ),
{
    let b = before.listed();
    let a = after.listed();
    let key = added.name@;
    let members = map_members(b);
    lemma_map_members(b);
    lemma_map_members(a);
    assert forall|k: int| at < k < members.len() implies #[trigger] members[k].0 != key && !lex_less(
        members[k].0,
        key,
    ) by {
        assert(members[k].0 == b[k].name@);
        assert(lex_less(b[at].name@, b[k].name@));
        lemma_lex_total(b[at].name@, key);
        if b[at].name@ != key {
            lemma_lex_transitive(key, b[at].name@, b[k].name@);
        }
        lemma_lex_total(key, b[k].name@);
    }
    assert forall|k: int| 0 <= k < at implies lex_less(#[trigger] members[k].0, key) by {
        assert(members[k].0 == b[k].name@);
    }
    if at < b.len() {
        assert(members[at].0 == b[at].name@);
    }
    lemma_put_in_order(members, at, key, property_json(added.schema));
    if found {
        assert(map_members(a) =~= members.update(at, (key, property_json(added.schema))));
    } else {
        assert forall|k: int| 0 <= k < a.len() implies #[trigger] map_members(a)[k]
            == members.insert(at, (key, property_json(added.schema)))[k] by {
            if k < at {
                assert(a[k] == b[k]);
                assert(members[k] == (b[k].name@, property_json(b[k].schema)));
            } else if k > at {
                assert(a[k] == b[k - 1]);
                assert(members[k - 1] == (b[k - 1].name@, property_json(b[k - 1].schema)));
            }
        }
        assert(map_members(a) =~= members.insert(at, (key, property_json(added.schema))));
    }
}

proof fn lemma_map_insert(
    before: SchemaMap,
    after: SchemaMap,
    at: int,
    added: NamedProperty,
    found: bool,
)
    requires
        before.sorted(),
        0 <= at <= before.listed().len(),
        forall|k: int| 0 <= k < at ==> lex_less(#[trigger] before.listed()[k].name@, added.name@),
        at < before.listed().len() ==> !lex_less(before.listed()[at].name@, added.name@),
        found == (at < before.listed().len() && before.listed()[at].name@ == added.name@),
        found ==> after.listed() == before.listed().update(at, added),
        !found ==> after.listed() == before.listed().insert(at, added),
    ensures
        after.sorted(),
        after.property(added.name@) == Some(added.schema),
        forall|other: Seq<char>|
            other != added.name@ ==> #[trigger] after.property(other) == before.property(other),
{
    let b = before.listed();
    let a = after.listed();
    let key = added.name@;
    assert(a[at] == added);
    assert forall|k: int| at <= k < b.len() && !(found && k == at) implies lex_less(
        key,
        (#[trigger] b[k]).name@,
    ) by {
        lemma_lex_total(key, b[at].name@);
        if k > at {
            assert(lex_less(b[at].name@, b[k].name@));
            if b[at].name@ != key {
                lemma_lex_transitive(key, b[at].name@, b[k].name@);
            }
        }
    }
    assert forall|i: int, j: int| 0 <= i < j < a.len() implies lex_less(a[i].name@, a[j].name@) by {
        if found {
            if i == at {
                assert(a[j] == b[j]);
            } else if j == at {
                assert(a[i] == b[i]);
                assert(lex_less(b[i].name@, key));
            } else {
                assert(a[i] == b[i] && a[j] == b[j]);
            }
        } else {
            let bi = if i < at { i } else { i - 1 };
            let bj = if j < at { j } else { j - 1 };
            if i == at {
                assert(a[j] == b[bj]);
                assert(lex_less(key, b[bj].name@));
            } else if j == at {
                assert(a[i] == b[i]);
                assert(lex_less(b[i].name@, key));
            } else {
                assert(a[i] == b[bi] && a[j] == b[bj]);
            }
        }
    }
    lemma_sorted_lookup(after, at);
    assert forall|other: Seq<char>| other != key implies #[trigger] after.property(other)
        == before.property(other) by {
        if exists|i: int| 0 <= i < b.len() && #[trigger] b[i].name@ == other {
            let i = choose|i: int| 0 <= i < b.len() && #[trigger] b[i].name@ == other;
            let k = if found || i < at { i } else { i + 1 };
            assert(a[k] == b[i]);
            lemma_sorted_lookup(before, i);
            lemma_sorted_lookup(after, k);
        } else if exists|i: int| 0 <= i < a.len() && #[trigger] a[i].name@ == other {
            let i = choose|i: int| 0 <= i < a.len() && #[trigger] a[i].name@ == other;
            let k = if found || i < at { i } else { i - 1 };
            assert(i != at);
            assert(a[i] == b[k]);
            assert(b[k].name@ == other);
        }
    }
}

proof fn lemma_sorted_lookup(map: SchemaMap, at: int)
    requires
        map.sorted(),
        0 <= at < map.listed().len(),
    ensures
        map.property(map.listed()[at].name@) == Some(map.listed()[at].schema),
{
    let name = map.listed()[at].name@;
    let i = choose|i: int|
        0 <= i < map.listed().len() && #[trigger] map.listed()[i].name@ == name;
    assert(map.listed()[at].name@ == name);
    lemma_lex_total(name, name);
    if i < at {
        assert(lex_less(map.listed()[i].name@, map.listed()[at].name@));
    } else if at < i {
        assert(lex_less(map.listed()[at].name@, map.listed()[i].name@));
    }
}

/// The JSON of properties that are in order has its keys in order.
pub proof fn keys_come_out_in_order(map: SchemaMap)
    requires
        map.sorted(),
    ensures
        map_members(map.listed()).len() == map.listed().len(),
        in_key_order(map_members(map.listed())),
{
    lemma_map_members(map.listed());
}

/// Whether the keys of members are in order, and none stands twice.
pub open spec fn in_key_order(members: Seq<(Seq<char>, JsonView)>) -> bool {
    forall|i: int, j: int|
        0 <= i < j < members.len() ==> lex_less(
            (#[trigger] members[i]).0,
            (#[trigger] members[j]).0,
        )
}

/// A key of ordered members finds its own value.
proof fn lemma_ordered_find(members: Seq<(Seq<char>, JsonView)>, at: int)
    requires
        in_key_order(members),
        0 <= at < members.len(),
    ensures
        find_member(members, members[at].0) == Some(members[at].1),
{
    let key = members[at].0;
    lemma_member_index(members, key);
    let found = member_index(members, key);
    lemma_lex_total(key, key);
    if found < at {
        assert(lex_less(members[found].0, members[at].0));
    }
}

/// What is found among members is one of them.
proof fn lemma_found_is_there(members: Seq<(Seq<char>, JsonView)>, key: Seq<char>)
    ensures
        find_member(members, key) is Some ==> exists|i: int|
            0 <= i < members.len() && (#[trigger] members[i]).0 == key,
{
    lemma_member_index(members, key);
    if find_member(members, key) is Some {
        assert(members[member_index(members, key)].0 == key);
    }
}

/// Members that are in order and hold the same are the same: the JSON of a map of
/// properties tells nothing of how the map came about. As the JSON of a property is made
/// of that of the maps in it, this holds at every level.
pub proof fn equal_maps_are_written_the_same(
    a: Seq<(Seq<char>, JsonView)>,
    b: Seq<(Seq<char>, JsonView)>,
)
    requires
        in_key_order(a),
        in_key_order(b),
        forall|key: Seq<char>| #[trigger] find_member(a, key) == find_member(b, key),
    ensures
        a == b,
    decreases a.len() + b.len(),
{
    if a.len() == 0 {
        if b.len() > 0 {
            lemma_ordered_find(b, 0);
            assert(find_member(a, b[0].0) == find_member(b, b[0].0));
        }
        assert(a =~= b);
    } else if b.len() == 0 {
        lemma_ordered_find(a, 0);
        assert(find_member(a, a[0].0) == find_member(b, a[0].0));
    } else {
        let x = a.last();
        let y = b.last();
        lemma_ordered_find(a, a.len() - 1);
        lemma_ordered_find(b, b.len() - 1);
        assert(find_member(a, x.0) == find_member(b, x.0));
        assert(find_member(a, y.0) == find_member(b, y.0));
        lemma_found_is_there(b, x.0);
        lemma_found_is_there(a, y.0);
        lemma_lex_total(x.0, y.0);
        assert(x.0 == y.0) by {
            let i = choose|i: int| 0 <= i < b.len() && (#[trigger] b[i]).0 == x.0;
            let j = choose|j: int| 0 <= j < a.len() && (#[trigger] a[j]).0 == y.0;
            if i < b.len() - 1 {
                assert(lex_less(b[i].0, b[b.len() - 1].0));
            }
            if j < a.len() - 1 {
                assert(lex_less(a[j].0, a[a.len() - 1].0));
            }
        }
        let front = a.drop_last();
        let rest = b.drop_last();
        assert(front.push(x) =~= a);
        assert(rest.push(y) =~= b);
        assert(in_key_order(front)) by {
            assert forall|i: int, j: int| 0 <= i < j < front.len() implies lex_less(
                (#[trigger] front[i]).0,
                (#[trigger] front[j]).0,
            ) by {
                assert(front[i] == a[i] && front[j] == a[j]);
            }
        }
        assert(in_key_order(rest)) by {
            assert forall|i: int, j: int| 0 <= i < j < rest.len() implies lex_less(
                (#[trigger] rest[i]).0,
                (#[trigger] rest[j]).0,
            ) by {
                assert(rest[i] == b[i] && rest[j] == b[j]);
            }
        }
        assert forall|key: Seq<char>| #[trigger] find_member(front, key) == find_member(
            rest,
            key,
        ) by {
            lemma_find_pushed(front, x, key);
            lemma_find_pushed(rest, y, key);
            assert(find_member(a, key) == find_member(b, key));
            if key == x.0 {
                lemma_absent(a, key);
                lemma_absent(b, key);
            }
        }
        equal_maps_are_written_the_same(front, rest);
        assert(x == y);
    }
}

/// The last key of ordered members is not among the others.
proof fn lemma_absent(members: Seq<(Seq<char>, JsonView)>, key: Seq<char>)
    requires
        in_key_order(members),
        members.len() > 0,
        members.last().0 == key,
    ensures
        find_member(members.drop_last(), key) is None,
{
    let front = members.drop_last();
    lemma_found_is_there(front, key);
    lemma_lex_total(key, key);
    if find_member(front, key) is Some {
        let i = choose|i: int| 0 <= i < front.len() && (#[trigger] front[i]).0 == key;
        assert(front[i] == members[i]);
        assert(lex_less(members[i].0, members[members.len() - 1].0));
    }
}

/// The members of the JSON of a map are its entries.
pub proof fn lemma_map_members(entries: Seq<NamedProperty>)
    ensures
        map_members(entries).len() == entries.len(),
        forall|i: int|
            0 <= i < entries.len() ==> #[trigger] map_members(entries)[i] == (
                entries[i].name@,
                property_json(entries[i].schema),
            ),
    decreases entries.len(),
{
    if entries.len() > 0 {
        lemma_map_members(entries.drop_last());
        assert forall|i: int| 0 <= i < entries.len() implies #[trigger] map_members(entries)[i] == (
            entries[i].name@,
            property_json(entries[i].schema),
        ) by {
            if i < entries.len() - 1 {
                assert(map_members(entries)[i] == map_members(entries.drop_last())[i]);
                assert(entries.drop_last()[i] == entries[i]);
            }
        }
    }
}

// ---------------------------------------------------------------------------
// Whole schemas
// ---------------------------------------------------------------------------

/// A schema.
#[derive(Debug, Default)]
pub struct JsonSchema {
    /// The dialect it is written in.
    pub schema_dialect: Option<String>,
    /// Its type; none when empty.
    pub schema_type: String,
    /// What it is, in words.
    pub description: Option<String>,
    /// The properties of an object.
    pub properties: Option<SchemaMap>,
    /// The properties that an object must have.
    pub required: Option<Vec<String>>,
    /// Whether an object may have further properties.
    pub additional_properties: Option<bool>,
    /// Schemas that others refer to.
    pub defs: Option<SchemaMap>,
    /// Exactly one of these holds.
    pub one_of: Option<Vec<PropertySchema>>,
    /// At least one of these holds.
    pub any_of: Option<Vec<PropertySchema>>,
    /// All of these hold.
    pub all_of: Option<Vec<PropertySchema>>,
}

/// The JSON of a map that may be absent.
pub open spec fn some_map(map: Option<SchemaMap>) -> Option<JsonView> {
    match map {
        Some(map) => Some(JsonView::Object(map_members(map.listed()))),
        None => None,
    }
}

/// The JSON of a list of schemas that may be absent.
pub open spec fn some_schemas(list: Option<Vec<PropertySchema>>) -> Option<JsonView> {
    match list {
        Some(list) => Some(JsonView::Array(schema_items(list@))),
        None => None,
    }
}

fn put_some_map(members: &mut Vec<Member>, key: &str, map: &Option<SchemaMap>)
    ensures
        member_views(final(members)@) == and_some(
            member_views(old(members)@),
            key@,
            some_map(*map),
        ),
{
    match map {
        Some(map) => put(members, key, entries_json(&map.entries)),
        None => {},
    }
}

fn put_some_schemas(members: &mut Vec<Member>, key: &str, list: &Option<Vec<PropertySchema>>)
    ensures
        member_views(final(members)@) == and_some(
            member_views(old(members)@),
            key@,
            some_schemas(*list),
        ),
{
    match list {
        Some(list) => put(members, key, schemas_json(list)),
        None => {},
    }
}

impl JsonSchema {
    /// The JSON that stands for it.
    pub open spec fn wire(self) -> JsonView {
        let a = and_some(fields(), "$schema"@, some_text(text_view(self.schema_dialect)));
        let b = and_some(a, "type"@, unless_empty(self.schema_type@));
        let c = and_some(b, "description"@, some_text(text_view(self.description)));
        let d = and_some(c, "properties"@, some_map(self.properties));
        let e = and_some(d, "required"@, some_texts(self.required));
        let f = and_some(e, "additionalProperties"@, some_bool(self.additional_properties));
        let g = and_some(f, "$defs"@, some_map(self.defs));
        let h = and_some(g, "oneOf"@, some_schemas(self.one_of));
        let i = and_some(h, "anyOf"@, some_schemas(self.any_of));
        JsonView::Object(and_some(i, "allOf"@, some_schemas(self.all_of)))
    }

    /// The JSON that stands for it.
    pub fn to_json(&self) -> (json: Json)
        ensures
            json@ == self.wire(),
    {
        let mut members = no_members();
        put_some_text(&mut members, "$schema", &self.schema_dialect);
        put_unless_empty(&mut members, "type", self.schema_type.as_str());
        put_some_text(&mut members, "description", &self.description);
        put_some_map(&mut members, "properties", &self.properties);
        put_some_texts(&mut members, "required", &self.required);
        put_some_bool(&mut members, "additionalProperties", self.additional_properties);
        put_some_map(&mut members, "$defs", &self.defs);
        put_some_schemas(&mut members, "oneOf", &self.one_of);
        put_some_schemas(&mut members, "anyOf", &self.any_of);
        put_some_schemas(&mut members, "allOf", &self.all_of);
        Json::object(members)
    }
}

/// A tool with typed schemas.
#[derive(Debug)]
pub struct ToolSchema {
    /// Tool name.
    pub name: String,
    /// What the tool does.
    pub description: String,
    /// Schema of the input.
    pub input_schema: JsonSchema,
    /// Schema of the structured output, when the tool declares one.
    pub output_schema: Option<JsonSchema>,
    /// Behavioural hints.
    pub annotations: Option<ToolAnnotations>,
    /// Task declaration.
    pub execution: Option<ToolExecution>,
}

impl ToolSchema {
    /// The JSON that stands for it.
    pub open spec fn wire(self) -> JsonView {
        let base = fields().push(("name"@, JsonView::Text(self.name@))).push(
            ("description"@, JsonView::Text(self.description@)),
        ).push(("inputSchema"@, self.input_schema.wire()));
        let out = and_some(
            base,
            "outputSchema"@,
            match self.output_schema {
                Some(schema) => Some(schema.wire()),
                None => None,
            },
        );
        let hints = and_some(out, "annotations"@, some_annotations(self.annotations));
        JsonView::Object(and_some(hints, "execution"@, some_execution(self.execution)))
    }

    /// A tool without hints.
    pub fn without_annotations(name: String, description: String, input_schema: JsonSchema) -> (tool:
        Self)
        ensures
            tool == (ToolSchema {
                name,
                description,
                input_schema,
                output_schema: None,
                annotations: None,
                execution: None,
            }),
    {
        ToolSchema {
            name,
            description,
            input_schema,
            output_schema: None,
            annotations: None,
            execution: None,
        }
    }

    /// A tool with hints.
    pub fn with_annotations(
        name: String,
        description: String,
        input_schema: JsonSchema,
        annotations: ToolAnnotations,
    ) -> (tool: Self)
        ensures
            tool == (ToolSchema {
                name,
                description,
                input_schema,
                output_schema: None,
                annotations: Some(annotations),
                execution: None,
            }),
    {
        ToolSchema {
            name,
            description,
            input_schema,
            output_schema: None,
            annotations: Some(annotations),
            execution: None,
        }
    }

    /// The same tool with a schema of its structured output.
    pub fn with_output_schema(self, output_schema: JsonSchema) -> (tool: Self)
        ensures
            tool == (ToolSchema { output_schema: Some(output_schema), ..self }),
    {
        ToolSchema { output_schema: Some(output_schema), ..self }
    }

    /// The JSON that stands for it.
    pub fn to_json(&self) -> (json: Json)
        ensures
            json@ == self.wire(),
    {
        let mut members = no_members();
        put_text(&mut members, "name", self.name.as_str());
        put_text(&mut members, "description", self.description.as_str());
        put(&mut members, "inputSchema", self.input_schema.to_json());
        let output = match &self.output_schema {
            Some(schema) => Some(schema.to_json()),
            None => None,
        };
        put_some(&mut members, "outputSchema", output);
        put_some(&mut members, "annotations", annotations_json(&self.annotations));
        put_some(&mut members, "execution", execution_json(&self.execution));
        Json::object(members)
    }
}

} // verus!
