//! JSON documents as plain values.
//!
//! `Json` is the form in which the library reads and writes JSON. Text is turned
//! into it by `serde_json`; what the text means is `parsed_text`.

use serde_json::Value;
use vstd::prelude::*;
use vstd::utf8::encode_utf8;

use crate::digits::signed_decimal;
use crate::text::{same, views};

verus! {

/// A JSON number. A number that is no 64-bit integer keeps its text.
#[derive(Debug, Clone, PartialEq, Eq)]
pub enum Number {
    /// A non-negative integer.
    Unsigned(u64),
    /// A negative integer.
    Negative(i64),
    /// Any other number, as it is written.
    Float(String),
}

/// A JSON document.
#[derive(Debug, PartialEq, Eq)]
pub enum Json {
    /// `null`.
    Null,
    /// `true` or `false`.
    Bool(bool),
    /// A number.
    Number(Number),
    /// A string.
    Text(String),
    /// An array.
    Array(Vec<Json>),
    /// An object: its members in order.
    Object(Vec<Member>),
}

/// One member of a JSON object.
#[derive(Debug, PartialEq, Eq)]
pub struct Member {
    /// The member's name.
    pub key: String,
    /// The member's value.
    pub value: Json,
}

/// What a `Number` is.
pub enum NumberView {
    /// A non-negative integer.
    Unsigned(u64),
    /// A negative integer.
    Negative(i64),
    /// Any other number, as it is written.
    Float(Seq<char>),
}

/// What a `Json` is.
pub enum JsonView {
    /// `null`.
    Null,
    /// `true` or `false`.
    Bool(bool),
    /// A number.
    Number(NumberView),
    /// A string.
    Text(Seq<char>),
    /// An array.
    Array(Seq<JsonView>),
    /// An object: its members in order.
    Object(Seq<(Seq<char>, JsonView)>),
}

impl View for Number {
    type V = NumberView;

    open spec fn view(&self) -> NumberView {
        match *self {
            Number::Unsigned(n) => NumberView::Unsigned(n),
            Number::Negative(n) => NumberView::Negative(n),
            Number::Float(text) => NumberView::Float(text@),
        }
    }
}

/// What a document is.
pub open spec fn json_view(json: Json) -> JsonView
    decreases json,
{
    match json {
        Json::Null => JsonView::Null,
        Json::Bool(b) => JsonView::Bool(b),
        Json::Number(n) => JsonView::Number(n@),
        Json::Text(s) => JsonView::Text(s@),
        Json::Array(items) => JsonView::Array(
            Seq::new(
                items@.len(),
                |i: int|
                    if 0 <= i < items@.len() {
                        json_view(items@[i])
                    } else {
                        JsonView::Null
                    },
            ),
        ),
        Json::Object(members) => JsonView::Object(
            Seq::new(
                members@.len(),
                |i: int|
                    if 0 <= i < members@.len() {
                        (members@[i].key@, json_view(members@[i].value))
                    } else {
                        (Seq::empty(), JsonView::Null)
                    },
            ),
        ),
    }
}

impl View for Json {
    type V = JsonView;

    open spec fn view(&self) -> JsonView {
        json_view(*self)
    }
}

/// What the items of an array are.
pub open spec fn item_views(items: Seq<Json>) -> Seq<JsonView> {
    Seq::new(items.len(), |i: int| items[i]@)
}

/// What the members of an object are.
pub open spec fn member_views(members: Seq<Member>) -> Seq<(Seq<char>, JsonView)> {
    Seq::new(members.len(), |i: int| (members[i].key@, members[i].value@))
}

/// The first position at which `key` names a member, or the number of members.
pub open spec fn member_index(members: Seq<(Seq<char>, JsonView)>, key: Seq<char>) -> int
    decreases members.len(),
{
    if members.len() == 0 {
        0
    } else if members[0].0 == key {
        0
    } else {
        1 + member_index(members.skip(1), key)
    }
}

/// `member_index` is the position it is named for.
pub proof fn lemma_member_index(members: Seq<(Seq<char>, JsonView)>, key: Seq<char>)
    ensures
        0 <= member_index(members, key) <= members.len(),
        member_index(members, key) < members.len() ==> members[member_index(members, key)].0 == key,
        forall|k: int| 0 <= k < member_index(members, key) ==> members[k].0 != key,
    decreases members.len(),
{
    if members.len() > 0 && members[0].0 != key {
        lemma_member_index(members.skip(1), key);
        assert forall|k: int| 0 <= k < member_index(members, key) implies members[k].0 != key by {
            if k > 0 {
                assert(members.skip(1)[k - 1] == members[k]);
            }
        }
    }
}

/// The value of the first member of the given name.
pub open spec fn find_member(members: Seq<(Seq<char>, JsonView)>, key: Seq<char>) -> Option<JsonView> {
    let at = member_index(members, key);
    if 0 <= at < members.len() {
        Some(members[at].1)
    } else {
        None
    }
}

/// A member that is added is found, unless one of its name stands before it; what
/// was found before is still found.
pub broadcast proof fn lemma_find_pushed(
    members: Seq<(Seq<char>, JsonView)>,
    added: (Seq<char>, JsonView),
    key: Seq<char>,
)
    ensures
        #[trigger] find_member(members.push(added), key) == match find_member(members, key) {
            Some(value) => Some(value),
            None => if added.0 == key {
                Some(added.1)
            } else {
                None
            },
        },
{
    let after = members.push(added);
    lemma_member_index(members, key);
    lemma_member_index(after, key);
    let before_at = member_index(members, key);
    let at = member_index(after, key);
    if before_at < members.len() {
        assert(after[before_at] == members[before_at]);
        if at < before_at {
            assert(after[at] == members[at]);
        }
        assert(at == before_at);
    } else {
        assert(after[members.len() as int] == added);
        if at < members.len() {
            assert(after[at] == members[at]);
        }
    }
}

/// Nothing is found among no members.
pub broadcast proof fn lemma_find_none(key: Seq<char>)
    ensures
        #[trigger] find_member(fields(), key) is None,
{
}

/// An optional member is found when it is there.
pub broadcast proof fn lemma_find_some(
    members: Seq<(Seq<char>, JsonView)>,
    name: Seq<char>,
    value: Option<JsonView>,
    key: Seq<char>,
)
    ensures
        #[trigger] find_member(and_some(members, name, value), key) == match find_member(members, key) {
            Some(found) => Some(found),
            None => if name == key {
                value
            } else {
                None
            },
        },
{
    match value {
        Some(value) => {
            lemma_find_pushed(members, (name, value), key);
        },
        None => {},
    }
}

/// A member that is added does not change what another name finds.
pub broadcast proof fn lemma_find_other(
    members: Seq<(Seq<char>, JsonView)>,
    name: Seq<char>,
    value: Option<JsonView>,
    key: Seq<char>,
)
    requires
        name != key,
    ensures
        #[trigger] find_member(and_some(members, name, value), key) == find_member(members, key),
{
    lemma_find_some(members, name, value, key);
}

/// A member that is added is found by its name, when no other had it.
pub broadcast proof fn lemma_find_own(
    members: Seq<(Seq<char>, JsonView)>,
    name: Seq<char>,
    value: Option<JsonView>,
)
    requires
        find_member(members, name) is None,
    ensures
        #[trigger] find_member(and_some(members, name, value), name) == value,
{
    lemma_find_some(members, name, value, name);
}

/// What is known of looking members up among members whose names are known to differ.
pub broadcast group group_find_apart {
    lemma_find_own,
    lemma_find_other,
    lemma_find_none,
}

/// What is known of looking members up.
pub broadcast group group_find_member {
    lemma_find_pushed,
    lemma_find_none,
    lemma_find_some,
}

impl JsonView {
    /// The member of an object with the given name; the first, should there be several.
    pub open spec fn member(self, key: Seq<char>) -> Option<JsonView> {
        match self {
            JsonView::Object(members) => find_member(members, key),
            _ => None,
        }
    }

    /// The characters of a string.
    pub open spec fn text(self) -> Option<Seq<char>> {
        match self {
            JsonView::Text(s) => Some(s),
            _ => None,
        }
    }
}

/// What an optional document is.
pub open spec fn option_view(json: Option<Json>) -> Option<JsonView> {
    match json {
        Some(json) => Some(json@),
        None => None,
    }
}

/// No members, to be followed by some.
pub open spec fn fields() -> Seq<(Seq<char>, JsonView)> {
    Seq::empty()
}

/// `members` and one more, when there is a value for it.
pub open spec fn and_some(
    members: Seq<(Seq<char>, JsonView)>,
    key: Seq<char>,
    value: Option<JsonView>,
) -> Seq<(Seq<char>, JsonView)> {
    match value {
        Some(value) => members.push((key, value)),
        None => members,
    }
}

/// A string that may be absent.
pub open spec fn some_text(text: Option<Seq<char>>) -> Option<JsonView> {
    match text {
        Some(text) => Some(JsonView::Text(text)),
        None => None,
    }
}

/// What an optional text is.
pub open spec fn text_view(text: Option<String>) -> Option<Seq<char>> {
    match text {
        Some(text) => Some(text@),
        None => None,
    }
}

/// A truth value that may be absent.
pub open spec fn some_bool(value: Option<bool>) -> Option<JsonView> {
    match value {
        Some(value) => Some(JsonView::Bool(value)),
        None => None,
    }
}

/// A number that may be absent.
pub open spec fn some_unsigned(value: Option<u64>) -> Option<JsonView> {
    match value {
        Some(value) => Some(JsonView::Number(NumberView::Unsigned(value))),
        None => None,
    }
}

/// An object that may be absent.
pub open spec fn some_object(members: Option<Vec<Member>>) -> Option<JsonView> {
    match members {
        Some(members) => Some(JsonView::Object(member_views(members@))),
        None => None,
    }
}

/// An array of strings.
pub open spec fn text_list(texts: Seq<Seq<char>>) -> JsonView {
    JsonView::Array(Seq::new(texts.len(), |i: int| JsonView::Text(texts[i])))
}

/// A floating-point number: the text that JSON writes for it, or none for a value
/// that JSON cannot write.
#[derive(Debug, Clone, PartialEq, Eq)]
pub enum Float {
    /// A finite number, as JSON writes it.
    Finite(String),
    /// Infinity, or not a number.
    NotFinite,
}

impl Float {
    /// The number as JSON: `null` where JSON has no number for it.
    pub open spec fn wire(self) -> JsonView {
        match self {
            Float::Finite(text) => JsonView::Number(NumberView::Float(text@)),
            Float::NotFinite => JsonView::Null,
        }
    }

    /// The number as JSON.
    pub fn to_json(&self) -> (json: Json)
        ensures
            json@ == self.wire(),
    {
        match self {
            Float::Finite(text) => Json::Number(Number::Float(text.clone())),
            Float::NotFinite => Json::Null,
        }
    }
}

/// The text of a number that is held as a floating-point number.
pub open spec fn float_text(number: NumberView) -> Seq<char> {
    match number {
        NumberView::Unsigned(n) => widened(n as int),
        NumberView::Negative(n) => widened(n as int),
        NumberView::Float(text) => text,
    }
}

impl Float {
    /// Reads a number, which may be written as an integer.
    pub fn from_json(json: &Json) -> (float: Option<Float>)
        ensures
            match float {
                Some(float) => json@ matches JsonView::Number(number) && float.wire()
                    == JsonView::Number(NumberView::Float(float_text(number))),
                None => !(json@ is Number),
            },
    {
        match json {
            Json::Number(number) => Some(
                Float::Finite(
                    match number {
                        Number::Unsigned(n) => widen(*n as i128),
                        Number::Negative(n) => widen(*n as i128),
                        Number::Float(text) => text.clone(),
                    },
                ),
            ),
            _ => None,
        }
    }
}

/// A floating-point number that may be absent.
pub open spec fn some_float(value: Option<Float>) -> Option<JsonView> {
    match value {
        Some(value) => Some(value.wire()),
        None => None,
    }
}

/// An object without members, to be filled with `put`.
pub fn no_members() -> (members: Vec<Member>)
    ensures
        member_views(members@) == fields(),
{
    let members: Vec<Member> = Vec::new();
    assert(member_views(members@) =~= Seq::empty());
    members
}

/// Adds one member behind the others.
pub fn put(members: &mut Vec<Member>, key: &str, value: Json)
    ensures
        member_views(final(members)@) == member_views(old(members)@).push((key@, value@)),
{
    members.push(Member { key: key.to_owned(), value });
    assert(member_views(members@) =~= member_views(old(members)@).push((key@, value@)));
}

/// Adds one member that is a string.
pub fn put_text(members: &mut Vec<Member>, key: &str, value: &str)
    ensures
        member_views(final(members)@) == member_views(old(members)@).push(
            (key@, JsonView::Text(value@)),
        ),
{
    put(members, key, Json::text(value));
}

/// Adds one member when there is a value for it.
pub fn put_some(members: &mut Vec<Member>, key: &str, value: Option<Json>)
    ensures
        member_views(final(members)@) == and_some(
            member_views(old(members)@),
            key@,
            option_view(value),
        ),
{
    match value {
        Some(value) => put(members, key, value),
        None => {},
    }
}

/// Adds one member that is a string, when there is one.
pub fn put_some_text(members: &mut Vec<Member>, key: &str, value: &Option<String>)
    ensures
        member_views(final(members)@) == and_some(
            member_views(old(members)@),
            key@,
            some_text(text_view(*value)),
        ),
{
    match value {
        Some(value) => put_text(members, key, value.as_str()),
        None => {},
    }
}

/// Adds one member that is a truth value, when there is one.
pub fn put_some_bool(members: &mut Vec<Member>, key: &str, value: Option<bool>)
    ensures
        member_views(final(members)@) == and_some(
            member_views(old(members)@),
            key@,
            some_bool(value),
        ),
{
    match value {
        Some(value) => put(members, key, Json::Bool(value)),
        None => {},
    }
}

/// Adds one member that is a number, when there is one.
pub fn put_some_unsigned(members: &mut Vec<Member>, key: &str, value: Option<u64>)
    ensures
        member_views(final(members)@) == and_some(
            member_views(old(members)@),
            key@,
            some_unsigned(value),
        ),
{
    match value {
        Some(value) => put(members, key, Json::unsigned(value)),
        None => {},
    }
}

/// Adds one member that is a floating-point number, when there is one.
pub fn put_some_float(members: &mut Vec<Member>, key: &str, value: &Option<Float>)
    ensures
        member_views(final(members)@) == and_some(
            member_views(old(members)@),
            key@,
            some_float(*value),
        ),
{
    match value {
        Some(value) => put(members, key, value.to_json()),
        None => {},
    }
}

/// Adds one member that is an object, when there is one.
pub fn put_some_object(members: &mut Vec<Member>, key: &str, value: &Option<Vec<Member>>)
    ensures
        member_views(final(members)@) == and_some(
            member_views(old(members)@),
            key@,
            some_object(*value),
        ),
{
    match value {
        Some(value) => put(members, key, Json::object(dup_members(value))),
        None => {},
    }
}

/// A copy of the members of an object.
pub fn dup_members(members: &Vec<Member>) -> (copy: Vec<Member>)
    ensures
        member_views(copy@) == member_views(members@),
{
    let mut copy: Vec<Member> = Vec::new();
    let mut i: usize = 0;
    while i < members.len()
        invariant
            i <= members.len(),
            copy.len() == i,
            forall|k: int|
                0 <= k < i ==> (#[trigger] copy@[k]).key@ == members@[k].key@ && copy@[k].value@
                    == members@[k].value@,
        decreases members.len() - i,
    {
        copy.push(Member { key: members[i].key.clone(), value: members[i].value.dup() });
        i += 1;
    }
    assert(member_views(copy@) =~= member_views(members@));
    copy
}

impl Json {
    /// The array of the given strings.
    pub fn texts(texts: &Vec<String>) -> (json: Json)
        ensures
            json@ == text_list(views(texts@)),
    {
        let mut items: Vec<Json> = Vec::new();
        let mut i: usize = 0;
        while i < texts.len()
            invariant
                i <= texts.len(),
                items.len() == i,
                forall|k: int| 0 <= k < i ==> (#[trigger] items@[k])@ == JsonView::Text(texts@[k]@),
            decreases texts.len() - i,
        {
            items.push(Json::text(texts[i].as_str()));
            i += 1;
        }
        assert(item_views(items@) =~= text_list(views(texts@))->Array_0);
        Json::array(items)
    }

    /// The object with the given members.
    pub fn object(members: Vec<Member>) -> (json: Json)
        ensures
            json@ == JsonView::Object(member_views(members@)),
    {
        let json = Json::Object(members);
        assert(json@->Object_0 =~= member_views(members@));
        json
    }

    /// The array with the given items.
    pub fn array(items: Vec<Json>) -> (json: Json)
        ensures
            json@ == JsonView::Array(item_views(items@)),
    {
        let json = Json::Array(items);
        assert(json@->Array_0 =~= item_views(items@));
        json
    }

    /// The string with the given characters.
    pub fn text(s: &str) -> (json: Json)
        ensures
            json@ == JsonView::Text(s@),
    {
        Json::Text(s.to_owned())
    }

    /// The number `n`.
    pub fn unsigned(n: u64) -> (json: Json)
        ensures
            json@ == JsonView::Number(NumberView::Unsigned(n)),
    {
        Json::Number(Number::Unsigned(n))
    }

    /// The number `n`.
    pub fn signed(n: i64) -> (json: Json)
        ensures
            json@ == signed_view(n as int),
    {
        if n < 0 {
            Json::Number(Number::Negative(n))
        } else {
            Json::Number(Number::Unsigned(n as u64))
        }
    }

    /// The member of an object with the given name; the first, should there be several.
    pub fn get(&self, key: &str) -> (value: Option<&Json>)
        ensures
            match value {
                Some(value) => self@.member(key@) == Some(value@),
                None => self@.member(key@) is None,
            },
    {
        match self {
            Json::Object(members) => {
                let ghost views = self@->Object_0;
                proof {
                    lemma_member_index(views, key@);
                }
                let mut i: usize = 0;
                while i < members.len()
                    invariant
                        i <= members.len(),
                        views == self@->Object_0,
                        self@ is Object,
                        views.len() == members.len(),
                        forall|k: int| 0 <= k < members.len() ==> #[trigger] views[k] == (
                            members@[k].key@,
                            members@[k].value@,
                        ),
                        0 <= member_index(views, key@) <= views.len(),
                        member_index(views, key@) < views.len() ==> views[member_index(views, key@)].0
                            == key@,
                        forall|k: int| 0 <= k < i ==> views[k].0 != key@,
                        forall|k: int|
                            0 <= k < member_index(views, key@) ==> views[k].0 != key@,
                    decreases members.len() - i,
                {
                    assert(views[i as int].0 == members@[i as int].key@);
                    if same(members[i].key.as_str(), key) {
                        return Some(&members[i].value);
                    }
                    i += 1;
                }
                None
            },
            _ => None,
        }
    }

    /// The characters of a string.
    pub fn as_str(&self) -> (s: Option<&str>)
        ensures
            match s {
                Some(s) => self@.text() == Some(s@),
                None => self@.text() is None,
            },
    {
        match self {
            Json::Text(s) => Some(s.as_str()),
            _ => None,
        }
    }

    /// A copy of the document.
    pub fn dup(&self) -> (copy: Json)
        ensures
            copy@ == self@,
        decreases *self,
    {
        match self {
            Json::Null => Json::Null,
            Json::Bool(b) => Json::Bool(*b),
            Json::Number(n) => Json::Number(n.dup()),
            Json::Text(s) => Json::Text(s.clone()),
            Json::Array(items) => {
                let mut copies: Vec<Json> = Vec::new();
                let mut i: usize = 0;
                while i < items.len()
                    invariant
                        i <= items.len(),
                        copies.len() == i,
                        *self == Json::Array(*items),
                        forall|k: int| 0 <= k < i ==> copies@[k]@ == items@[k]@,
                    decreases items.len() - i,
                {
                    assert(decreases_to!(*self => self->Array_0));
                    assert(decreases_to!(items => items@));
                    assert(decreases_to!(items@ => items@[i as int]));
                    copies.push(items[i].dup());
                    i += 1;
                }
                let copy = Json::Array(copies);
                assert(copy@->Array_0 =~= self@->Array_0);
                copy
            },
            Json::Object(members) => {
                let mut copies: Vec<Member> = Vec::new();
                let mut i: usize = 0;
                while i < members.len()
                    invariant
                        i <= members.len(),
                        copies.len() == i,
                        *self == Json::Object(*members),
                        forall|k: int| 0 <= k < i ==> (#[trigger] copies@[k]).key@ == members@[k].key@ && copies@[k].value@ == members@[k].value@,
                    decreases members.len() - i,
                {
                    assert(decreases_to!(*self => self->Object_0));
                    assert(decreases_to!(members => members@));
                    assert(decreases_to!(members@ => members@[i as int]));
                    assert(decreases_to!(members@[i as int] => members@[i as int].value));
                    let key = members[i].key.clone();
                    let value = members[i].value.dup();
                    copies.push(Member { key, value });
                    i += 1;
                }
                let copy = Json::Object(copies);
                assert(copy@->Object_0 =~= self@->Object_0);
                copy
            },
        }
    }
}

/// The integer `n` as a JSON number.
pub open spec fn signed_view(n: int) -> JsonView {
    if n < 0 {
        JsonView::Number(NumberView::Negative(n as i64))
    } else {
        JsonView::Number(NumberView::Unsigned(n as u64))
    }
}

impl Number {
    /// A copy of the number.
    pub fn dup(&self) -> (copy: Number)
        ensures
            copy@ == self@,
    {
        match self {
            Number::Unsigned(n) => Number::Unsigned(*n),
            Number::Negative(n) => Number::Negative(*n),
            Number::Float(text) => Number::Float(text.clone()),
        }
    }
}

/// A copy of an optional document.
pub fn dup_option(json: &Option<Json>) -> (copy: Option<Json>)
    ensures
        option_view(copy) == option_view(*json),
{
    match json {
        Some(json) => Some(json.dup()),
        None => None,
    }
}

// ---------------------------------------------------------------------------
// Text
// ---------------------------------------------------------------------------

/// `serde_json`'s own tree of a JSON document.
#[verifier::external_type_specification]
#[verifier::external_body]
pub struct ExValue(serde_json::Value);

/// The document that a `serde_json::Value` holds.
pub uninterp spec fn value_tree(value: serde_json::Value) -> JsonView;

/// What `serde_json` makes of the bytes of a text: the document, or the words of its refusal.
pub uninterp spec fn parsed_bytes(bytes: Seq<u8>) -> Result<JsonView, Seq<char>>;

/// What `serde_json` makes of a text: the document, or the words of its refusal.
pub open spec fn parsed_text(text: Seq<char>) -> Result<JsonView, Seq<char>> {
    parsed_bytes(encode_utf8(text))
}

/// `serde_json::from_slice`: the tree of the document that the bytes denote, or
/// why they denote none.
#[verifier::external_body]
fn read_value(bytes: &[u8]) -> (value: Result<serde_json::Value, String>)
    ensures
        match value {
            Ok(value) => parsed_bytes(bytes@) == Ok::<JsonView, Seq<char>>(value_tree(value)),
            Err(reason) => parsed_bytes(bytes@) == Err::<JsonView, Seq<char>>(reason@),
        },
{
    serde_json::from_slice(bytes).map_err(|e: serde_json::Error| e.to_string())
}

/// Takes a `serde_json::Value` apart, variant by variant, into the document it
/// holds. Numbers come by `Number::as_u64` and `as_i64`, and by their text where
/// both decline.
#[verifier::external_body]
fn open_value(value: serde_json::Value) -> (json: Json)
    ensures
        json@ == value_tree(value),
{
    match value {
        Value::Null => Json::Null,
        Value::Bool(b) => Json::Bool(b),
        Value::Number(n) => Json::Number(match (n.as_u64(), n.as_i64()) {
            (Some(n), _) => Number::Unsigned(n),
            (None, Some(n)) => Number::Negative(n),
            (None, None) => Number::Float(n.to_string()),
        }),
        Value::String(s) => Json::Text(s),
        Value::Array(items) => Json::Array(items.into_iter().map(open_value).collect()),
        Value::Object(map) => Json::Object(
            map.into_iter().map(|(key, v)| Member { key, value: open_value(v) }).collect(),
        ),
    }
}

/// The text that `serde_json` writes for an integer once it is a floating-point number.
pub uninterp spec fn widened(n: int) -> Seq<char>;

/// `serde_json::Number::as_f64` of the integer that `Number::from_i128` holds, made a
/// number again by `Number::from_f64` and written by its `Display`. `from_i128` holds no
/// integer outside the bounds required here. One of up to 53 bits is held exactly and comes
/// out with all its digits and `.0`; how a larger one is rounded is left unsaid.
#[verifier::external_body]
fn widen(n: i128) -> (text: String)
    requires
        i64::MIN <= n <= u64::MAX,
    ensures
        text@ == widened(n as int),
        -0x20_0000_0000_0000 < n < 0x20_0000_0000_0000 ==> text@ == signed_decimal(n as int) + ".0"@,
{
    let float = serde_json::Number::from_i128(n).and_then(|integer| integer.as_f64());
    let number = float.and_then(serde_json::Number::from_f64);
    number.map(|number| number.to_string()).unwrap_or_default()
}

impl Json {
    /// Reads a document from its text.
    pub fn parse(text: &str) -> (json: Result<Json, String>)
        ensures
            match json {
                Ok(json) => parsed_text(text@) == Ok::<JsonView, Seq<char>>(json@),
                Err(reason) => parsed_text(text@) == Err::<JsonView, Seq<char>>(reason@),
            },
    {
        Json::parse_bytes(text.as_bytes())
    }

    /// Reads a document from the bytes of its text.
    pub fn parse_bytes(bytes: &[u8]) -> (json: Result<Json, String>)
        ensures
            match json {
                Ok(json) => parsed_bytes(bytes@) == Ok::<JsonView, Seq<char>>(json@),
                Err(reason) => parsed_bytes(bytes@) == Err::<JsonView, Seq<char>>(reason@),
            },
    {
        match read_value(bytes) {
            Ok(value) => Ok(open_value(value)),
            Err(reason) => Err(reason),
        }
    }

    /// The document that a `serde_json::Value` holds.
    pub fn from_value(value: serde_json::Value) -> (json: Json)
        ensures
            json@ == value_tree(value),
    {
        open_value(value)
    }
}

} // verus!
