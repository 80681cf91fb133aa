//! Where in a text a record goes wrong.
//!
//! The tree of a JSON text keeps neither the order of its members, nor those that come twice,
//! nor where they stand. A typed reader that goes through the text from front to back refuses
//! it at the first fault, and says where. Here a text is cut into its members and items; what
//! each of them denotes, and whether it is JSON at all, is `parsed_bytes` of its piece of the
//! text.

use vstd::prelude::*;
use vstd::slice::slice_subrange;

use crate::decode::{
    length_words, missing, missing_words, wrong_length, wrong_type, wrong_type_words,
};
use crate::digits::{char_of_digit, decimal, render_decimal};
use crate::json::{parsed_bytes, Json, JsonView};
use crate::text::same;

verus! {

// ---------------------------------------------------------------------------
// Cutting
// ---------------------------------------------------------------------------

/// Whether a byte is white space between the parts of a document.
pub open spec fn is_gap(c: u8) -> bool {
    c == 32 || c == 9 || c == 10 || c == 13
}

/// Where what stands at `i` begins, behind white space.
pub open spec fn skip_gap(b: Seq<u8>, i: int) -> int
    decreases b.len() - i,
{
    if 0 <= i < b.len() && is_gap(b[i]) {
        skip_gap(b, i + 1)
    } else {
        i
    }
}

/// Where a string ends whose opening quote stands before `i`: behind the first quote that no
/// backslash stands for.
pub open spec fn string_end(b: Seq<u8>, i: int) -> int
    decreases b.len() - i,
{
    if !(0 <= i < b.len()) {
        i
    } else if b[i] == 34 {
        i + 1
    } else if b[i] == 92 && i + 1 < b.len() {
        string_end(b, i + 2)
    } else {
        string_end(b, i + 1)
    }
}

/// Whether a byte can stand behind a number or a word.
pub open spec fn ends_word(c: u8) -> bool {
    is_gap(c) || c == 44 || c == 58 || c == 93 || c == 125
}

/// Where a number or a word ends.
pub open spec fn word_end(b: Seq<u8>, i: int) -> int
    decreases b.len() - i,
{
    if 0 <= i < b.len() && !ends_word(b[i]) {
        word_end(b, i + 1)
    } else {
        i
    }
}

/// Where the bracket is closed that is the `depth`th open one at `i`.
pub open spec fn bracket_end(b: Seq<u8>, i: int, depth: nat) -> int
    decreases b.len() - i,
{
    if !(0 <= i < b.len()) || depth == 0 {
        i
    } else if b[i] == 34 {
        let next = string_end(b, i + 1);
        if i < next <= b.len() {
            bracket_end(b, next, depth)
        } else {
            i
        }
    } else if b[i] == 91 || b[i] == 123 {
        bracket_end(b, i + 1, depth + 1)
    } else if b[i] == 93 || b[i] == 125 {
        bracket_end(b, i + 1, (depth - 1) as nat)
    } else {
        bracket_end(b, i + 1, depth)
    }
}

/// Where the value ends that begins at `i`.
pub open spec fn value_end(b: Seq<u8>, i: int) -> int {
    if !(0 <= i < b.len()) {
        i
    } else if b[i] == 34 {
        string_end(b, i + 1)
    } else if b[i] == 91 || b[i] == 123 {
        bracket_end(b, i + 1, 1)
    } else {
        word_end(b, i)
    }
}

/// A piece of a text, from one place to another.
pub open spec fn piece(b: Seq<u8>, start: int, end: int) -> Seq<u8> {
    if 0 <= start <= end <= b.len() {
        b.subrange(start, end)
    } else {
        Seq::empty()
    }
}

/// A member of an object, in its text. Its value may be missing there.
pub struct PlacedView {
    /// Its name.
    pub key: Seq<char>,
    /// Where the colon stands behind the name, or what stands in its place.
    pub colon: int,
    /// Where the value begins.
    pub start: int,
    /// Where the value ends.
    pub end: int,
}

/// Where the next part at `i` begins: behind a comma, unless the bracket that holds it was
/// opened just before.
pub open spec fn next_part(b: Seq<u8>, i: int, bracket: u8) -> int {
    let first = skip_gap(b, i);
    if 0 < i <= b.len() && b[i - 1] == bracket {
        first
    } else if 0 <= first < b.len() && b[first] == 44 {
        skip_gap(b, first + 1)
    } else {
        b.len() as int
    }
}

/// The next member at `i`, where there is one.
pub open spec fn member_at(b: Seq<u8>, i: int) -> Option<PlacedView> {
    let name = next_part(b, i, 123);
    let name_end = if 0 <= name < b.len() && b[name] == 34 {
        string_end(b, name + 1)
    } else {
        name
    };
    match parsed_bytes(piece(b, name, name_end)) {
        Ok(JsonView::Text(key)) => {
            let colon = skip_gap(b, name_end);
            let start = if 0 <= colon < b.len() && b[colon] == 58 {
                skip_gap(b, colon + 1)
            } else {
                colon
            };
            let end = if start > colon {
                value_end(b, start)
            } else {
                start
            };
            if i < end <= b.len() {
                Some(PlacedView { key, colon, start, end })
            } else {
                None
            }
        },
        _ => None,
    }
}

/// The members that follow at `i`.
pub open spec fn members_from(b: Seq<u8>, i: int) -> Seq<PlacedView>
    decreases b.len() - i,
{
    match member_at(b, i) {
        Some(member) if i < member.end <= b.len() => seq![member] + members_from(b, member.end),
        _ => Seq::empty(),
    }
}

/// The next item at `i`, where there is one: where it begins, and where it ends.
pub open spec fn item_at(b: Seq<u8>, i: int) -> Option<(int, int)> {
    let start = next_part(b, i, 91);
    let end = value_end(b, start);
    if i <= start < end <= b.len() {
        Some((start, end))
    } else {
        None
    }
}

/// The items that follow at `i`.
pub open spec fn items_from(b: Seq<u8>, i: int) -> Seq<(int, int)>
    decreases b.len() - i,
{
    match item_at(b, i) {
        Some((start, end)) if i < end <= b.len() => seq![(start, end)] + items_from(b, end),
        _ => Seq::empty(),
    }
}

fn skip_gap_at(b: &[u8], i: usize) -> (j: usize)
    requires
        i <= b@.len(),
    ensures
        j == skip_gap(b@, i as int),
        i <= j <= b@.len(),
{
    let mut j: usize = i;
    while j < b.len() && (b[j] == 32 || b[j] == 9 || b[j] == 10 || b[j] == 13)
        invariant
            i <= j <= b@.len(),
            skip_gap(b@, i as int) == skip_gap(b@, j as int),
        decreases b.len() - j,
    {
        j += 1;
    }
    j
}

fn string_end_at(b: &[u8], i: usize) -> (end: usize)
    requires
        i <= b@.len(),
    ensures
        end == string_end(b@, i as int),
        i <= end <= b@.len(),
{
    let mut j: usize = i;
    while j < b.len()
        invariant
            i <= j <= b@.len(),
            string_end(b@, i as int) == string_end(b@, j as int),
        decreases b.len() - j,
    {
        if b[j] == 34 {
            return j + 1;
        }
        if b[j] == 92 && b.len() - j > 1 {
            j += 2;
        } else {
            j += 1;
        }
    }
    j
}

fn word_end_at(b: &[u8], i: usize) -> (end: usize)
    requires
        i <= b@.len(),
    ensures
        end == word_end(b@, i as int),
        i <= end <= b@.len(),
{
    let mut j: usize = i;
    while j < b.len() && !(b[j] == 32 || b[j] == 9 || b[j] == 10 || b[j] == 13 || b[j] == 44
        || b[j] == 58 || b[j] == 93 || b[j] == 125)
        invariant
            i <= j <= b@.len(),
            word_end(b@, i as int) == word_end(b@, j as int),
        decreases b.len() - j,
    {
        j += 1;
    }
    j
}

fn bracket_end_at(b: &[u8], i: usize) -> (end: usize)
    requires
        1 <= i <= b@.len(),
    ensures
        end == bracket_end(b@, i as int, 1),
        i <= end <= b@.len(),
{
    let mut j: usize = i;
    let mut depth: usize = 1;
    while j < b.len() && depth > 0
        invariant
            1 <= i <= j <= b@.len(),
            depth <= j + 1 - i,
            bracket_end(b@, i as int, 1) == bracket_end(b@, j as int, depth as nat),
        decreases b.len() - j,
    {
        if b[j] == 34 {
            j = string_end_at(b, j + 1);
        } else if b[j] == 91 || b[j] == 123 {
            depth += 1;
            j += 1;
        } else if b[j] == 93 || b[j] == 125 {
            depth -= 1;
            j += 1;
        } else {
            j += 1;
        }
    }
    j
}

fn value_end_at(b: &[u8], i: usize) -> (end: usize)
    requires
        i <= b@.len(),
    ensures
        end == value_end(b@, i as int),
        i <= end <= b@.len(),
{
    if i == b.len() {
        i
    } else if b[i] == 34 {
        string_end_at(b, i + 1)
    } else if b[i] == 91 || b[i] == 123 {
        bracket_end_at(b, i + 1)
    } else {
        word_end_at(b, i)
    }
}

/// What a piece of a text denotes.
fn read_piece(b: &[u8], start: usize, end: usize) -> (json: Option<Json>)
    requires
        start <= end <= b@.len(),
    ensures
        match json {
            Some(json) => parsed_bytes(piece(b@, start as int, end as int)) == Ok::<
                JsonView,
                Seq<char>,
            >(json@),
            None => parsed_bytes(piece(b@, start as int, end as int)) is Err,
        },
{
    match Json::parse_bytes(slice_subrange(b, start, end)) {
        Ok(json) => Some(json),
        Err(_) => None,
    }
}

/// A member of an object, in its text.
pub struct Placed {
    key: String,
    colon: usize,
    start: usize,
    end: usize,
}

impl View for Placed {
    type V = PlacedView;

    closed spec fn view(&self) -> PlacedView {
        PlacedView {
            key: self.key@,
            colon: self.colon as int,
            start: self.start as int,
            end: self.end as int,
        }
    }
}

fn next_part_at(b: &[u8], i: usize, bracket: u8) -> (start: usize)
    requires
        i <= b@.len(),
    ensures
        start == next_part(b@, i as int, bracket),
        i <= start <= b@.len(),
{
    let first: usize = skip_gap_at(b, i);
    if i > 0 && b[i - 1] == bracket {
        first
    } else if first < b.len() && b[first] == 44 {
        skip_gap_at(b, first + 1)
    } else {
        b.len()
    }
}

fn read_member(b: &[u8], i: usize) -> (member: Option<Placed>)
    requires
        i <= b@.len(),
    ensures
        match member {
            Some(member) => member_at(b@, i as int) == Some(member@) && i < member@.end
                <= b@.len() && member@.start <= member@.end && 0 <= member@.start && 0
                <= member@.colon <= b@.len(),
            None => member_at(b@, i as int) is None,
        },
{
    let name: usize = next_part_at(b, i, 123);
    let name_end: usize = if name < b.len() && b[name] == 34 {
        string_end_at(b, name + 1)
    } else {
        name
    };
    let key = match read_piece(b, name, name_end) {
        Some(Json::Text(key)) => key,
        _ => {
            return None;
        },
    };
    let colon: usize = skip_gap_at(b, name_end);
    let start: usize = if colon < b.len() && b[colon] == 58 {
        skip_gap_at(b, colon + 1)
    } else {
        colon
    };
    let end: usize = if start > colon {
        value_end_at(b, start)
    } else {
        start
    };
    if i < end {
        Some(Placed { key, colon, start, end })
    } else {
        None
    }
}

/// What a list of members is.
pub open spec fn placed_views(members: Seq<Placed>) -> Seq<PlacedView> {
    Seq::new(members.len(), |i: int| members[i]@)
}

fn read_members(b: &[u8], i: usize) -> (members: Vec<Placed>)
    requires
        i <= b@.len(),
    ensures
        placed_views(members@) == members_from(b@, i as int),
        forall|k: int|
            0 <= k < members@.len() ==> 0 <= (#[trigger] members@[k])@.start <= members@[k]@.end
                <= b@.len() && 0 <= members@[k]@.colon <= b@.len(),
{
    let mut members: Vec<Placed> = Vec::new();
    let mut at: usize = i;
    assert(placed_views(members@) + members_from(b@, at as int) =~= members_from(b@, i as int));
    loop
        invariant
            at <= b@.len(),
            placed_views(members@) + members_from(b@, at as int) == members_from(b@, i as int),
            forall|k: int|
                0 <= k < members@.len() ==> 0 <= (#[trigger] members@[k])@.start <= members@[k]@.end
                    <= b@.len() && 0 <= members@[k]@.colon <= b@.len(),
        ensures
            placed_views(members@) == members_from(b@, i as int),
        decreases b@.len() - at,
    {
        let ghost before = placed_views(members@);
        match read_member(b, at) {
            Some(member) => {
                let ghost shown = member@;
                let ghost rest = members_from(b@, shown.end);
                let end: usize = member.end;
                members.push(member);
                assert(placed_views(members@) =~= before.push(shown));
                assert(before.push(shown) + rest =~= before + (seq![shown] + rest));
                at = end;
            },
            None => {
                assert(members_from(b@, at as int) =~= Seq::empty());
                assert(before + Seq::<PlacedView>::empty() =~= before);
                break;
            },
        }
    }
    members
}

/// What a list of places is.
pub open spec fn span_views(spans: Seq<(usize, usize)>) -> Seq<(int, int)> {
    Seq::new(spans.len(), |i: int| (spans[i].0 as int, spans[i].1 as int))
}

fn read_items(b: &[u8], i: usize) -> (items: Vec<(usize, usize)>)
    requires
        i <= b@.len(),
    ensures
        span_views(items@) == items_from(b@, i as int),
        forall|k: int|
            0 <= k < items@.len() ==> (#[trigger] items@[k]).0 < items@[k].1 <= b@.len(),
{
    let mut items: Vec<(usize, usize)> = Vec::new();
    let mut at: usize = i;
    assert(span_views(items@) + items_from(b@, at as int) =~= items_from(b@, i as int));
    loop
        invariant
            at <= b@.len(),
            span_views(items@) + items_from(b@, at as int) == items_from(b@, i as int),
            forall|k: int|
                0 <= k < items@.len() ==> (#[trigger] items@[k]).0 < items@[k].1 <= b@.len(),
        ensures
            span_views(items@) == items_from(b@, i as int),
        decreases b@.len() - at,
    {
        let ghost before = span_views(items@);
        let start: usize = next_part_at(b, at, 91);
        let end: usize = value_end_at(b, start);
        if start < end {
            let ghost rest = items_from(b@, end as int);
            items.push((start, end));
            assert(span_views(items@) =~= before.push((start as int, end as int)));
            assert(before.push((start as int, end as int)) + rest =~= before + (seq![
                (start as int, end as int),
            ] + rest));
            at = end;
        } else {
            assert(items_from(b@, at as int) =~= Seq::empty());
            assert(before + Seq::<(int, int)>::empty() =~= before);
            break;
        }
    }
    items
}

// ---------------------------------------------------------------------------
// Faults
// ---------------------------------------------------------------------------

/// What is wrong with a text, and where.
pub struct FaultView {
    /// What is wrong.
    pub words: Seq<char>,
    /// How far the reader came: the number of bytes before.
    pub at: int,
}

/// What is wrong with a text, and where.
pub struct Fault {
    words: String,
    at: usize,
}

impl View for Fault {
    type V = FaultView;

    closed spec fn view(&self) -> FaultView {
        FaultView { words: self.words@, at: self.at as int }
    }
}

/// What an optional fault is.
pub open spec fn fault_view(fault: Option<Fault>) -> Option<FaultView> {
    match fault {
        Some(fault) => Some(fault@),
        None => None,
    }
}

/// The line at a place, counted from one.
pub open spec fn line_of(b: Seq<u8>, at: int) -> nat
    decreases at,
{
    if 0 < at <= b.len() {
        line_of(b, at - 1) + if b[at - 1] == 10 {
            1nat
        } else {
            0nat
        }
    } else {
        1
    }
}

/// How many bytes of its line stand before a place.
pub open spec fn column_of(b: Seq<u8>, at: int) -> nat
    decreases at,
{
    if 0 < at <= b.len() && b[at - 1] != 10 {
        column_of(b, at - 1) + 1
    } else {
        0
    }
}

/// A fault, told with its place.
pub open spec fn located(b: Seq<u8>, fault: FaultView) -> Seq<char> {
    fault.words + " at line "@ + decimal(line_of(b, fault.at)) + " column "@ + decimal(
        column_of(b, fault.at),
    )
}

/// The number of a line, in decimal.
fn render_line(n: u128) -> (text: String)
    requires
        n <= u64::MAX + 1,
    ensures
        text@ == decimal(n as nat),
{
    if n <= u64::MAX as u128 {
        render_decimal(n as u64)
    } else {
        let mut text = render_decimal((n / 10) as u64);
        text.push(char_of_digit((n % 10) as u64));
        text
    }
}

impl Fault {
    /// Tells a fault with its place.
    pub fn locate(&self, b: &[u8]) -> (words: String)
        requires
            self@.at <= b@.len(),
        ensures
            words@ == located(b@, self@),
    {
        let mut line: u128 = 1;
        let mut column: u64 = 0;
        let mut i: usize = 0;
        while i < self.at
            invariant
                i <= self.at <= b@.len(),
                line == line_of(b@, i as int),
                column == column_of(b@, i as int),
                line <= i + 1,
                column <= i,
            decreases self.at - i,
        {
            if b[i] == 10 {
                line += 1;
                column = 0;
            } else {
                column += 1;
            }
            i += 1;
        }
        self.words.clone().concat(" at line ").concat(render_line(line).as_str()).concat(
            " column ",
        ).concat(render_decimal(column).as_str())
    }
}

/// What a field may be.
#[derive(Debug, Clone, Copy, PartialEq, Eq, Structural)]
pub enum Kind {
    /// A string.
    Text,
    /// A string, or `null`.
    OptionalText,
    /// A truth value, or `null`.
    OptionalBool,
    /// An object, or `null`.
    OptionalMap,
    /// An object whose members are strings.
    TextMap,
    /// An array.
    List,
    /// Anything.
    Anything,
}

/// A field of a record.
pub struct Rule {
    /// Its name.
    pub name: &'static str,
    /// What it may be.
    pub kind: Kind,
    /// Whether an object must have it.
    pub needed: bool,
}

/// A field of a record.
pub struct RuleView {
    /// Its name.
    pub name: Seq<char>,
    /// What it may be.
    pub kind: Kind,
    /// Whether an object must have it.
    pub needed: bool,
}

/// What a list of fields is.
pub open spec fn rule_views(rules: Seq<Rule>) -> Seq<RuleView> {
    Seq::new(
        rules.len(),
        |i: int| RuleView { name: rules[i].name@, kind: rules[i].kind, needed: rules[i].needed },
    )
}

/// A value of the wrong type. A reader comes to the end of a value to tell what it is, but
/// need not look into an array or an object.
pub open spec fn wrong_value(json: JsonView, expected: Seq<char>, start: int, end: int) -> FaultView {
    FaultView {
        words: wrong_type_words(json, expected),
        at: if json is Array || json is Object {
            start
        } else {
            end
        },
    }
}

fn refuse_value(json: &Json, expected: &str, start: usize, end: usize) -> (fault: Fault)
    ensures
        fault@ == wrong_value(json@, expected@, start as int, end as int),
{
    Fault {
        words: wrong_type(json, expected),
        at: match json {
            Json::Array(_) => start,
            Json::Object(_) => start,
            _ => end,
        },
    }
}

/// What is wrong with a value that should be a string.
pub open spec fn text_fault(b: Seq<u8>, start: int, end: int) -> Option<FaultView> {
    match parsed_bytes(piece(b, start, end)) {
        Ok(json) => if json is Text {
            None
        } else {
            Some(wrong_value(json, "a string"@, start, end))
        },
        Err(_) => None,
    }
}

/// What is wrong with the first of these members that is no string.
pub open spec fn texts_fault(b: Seq<u8>, members: Seq<PlacedView>) -> Option<FaultView>
    decreases members.len(),
{
    if members.len() == 0 {
        None
    } else {
        match texts_fault(b, members.drop_last()) {
            Some(fault) => Some(fault),
            None => text_fault(b, members.last().start, members.last().end),
        }
    }
}

/// What is wrong with a value that a field holds.
pub open spec fn value_fault(b: Seq<u8>, kind: Kind, start: int, end: int) -> Option<FaultView> {
    match parsed_bytes(piece(b, start, end)) {
        Err(_) => None,
        Ok(json) => match kind {
            Kind::Anything => None,
            Kind::Text => text_fault(b, start, end),
            Kind::OptionalText => if json is Null {
                None
            } else {
                text_fault(b, start, end)
            },
            Kind::OptionalBool => if json is Null || json is Bool {
                None
            } else {
                Some(wrong_value(json, "a boolean"@, start, end))
            },
            Kind::OptionalMap => if json is Null || json is Object {
                None
            } else {
                Some(wrong_value(json, "a map"@, start, end))
            },
            Kind::TextMap => if json is Object {
                texts_fault(b, members_from(b, start + 1))
            } else {
                Some(wrong_value(json, "a map"@, start, end))
            },
            Kind::List => if json is Array {
                None
            } else {
                Some(wrong_value(json, "a sequence"@, start, end))
            },
        },
    }
}

/// The field of a name, by its number; as many as there are fields where there is none.
pub open spec fn rule_index(rules: Seq<RuleView>, name: Seq<char>) -> int
    decreases rules.len(),
{
    if rules.len() == 0 || rules[0].name == name {
        0
    } else {
        1 + rule_index(rules.skip(1), name)
    }
}

/// Whether a member of a name stands among members.
pub open spec fn has_member(members: Seq<PlacedView>, name: Seq<char>) -> bool {
    exists|k: int| 0 <= k < members.len() && (#[trigger] members[k]).key == name
}

/// How far a reader comes.
pub enum Walk {
    /// Through all of it.
    Through,
    /// To a fault.
    Fault(FaultView),
    /// To something that is no JSON.
    Broken,
}

/// What a reader finds at a value.
pub open spec fn value_walk(b: Seq<u8>, kind: Kind, start: int, end: int) -> Walk {
    if parsed_bytes(piece(b, start, end)) is Err {
        Walk::Broken
    } else {
        match value_fault(b, kind, start, end) {
            Some(fault) => Walk::Fault(fault),
            None => Walk::Through,
        }
    }
}

/// What a reader finds at a member, given those before it: a field that was there already, or
/// a value that the field cannot hold. A member that is no field is passed over.
pub open spec fn member_walk(
    b: Seq<u8>,
    rules: Seq<RuleView>,
    before: Seq<PlacedView>,
    member: PlacedView,
) -> Walk {
    let at = rule_index(rules, member.key);
    if !(0 <= at < rules.len()) {
        value_walk(b, Kind::Anything, member.start, member.end)
    } else if has_member(before, member.key) {
        Walk::Fault(
            FaultView {
                words: "duplicate field `"@ + member.key + "`"@,
                at: if 0 <= member.colon < b.len() && b[member.colon] == 125 {
                    member.colon + 1
                } else {
                    member.colon
                },
            },
        )
    } else {
        value_walk(b, rules[at].kind, member.start, member.end)
    }
}

/// How far a reader comes among members.
pub open spec fn members_walk(b: Seq<u8>, rules: Seq<RuleView>, members: Seq<PlacedView>) -> Walk
    decreases members.len(),
{
    if members.len() == 0 {
        Walk::Through
    } else {
        match members_walk(b, rules, members.drop_last()) {
            Walk::Through => member_walk(b, rules, members.drop_last(), members.last()),
            stopped => stopped,
        }
    }
}

/// The first field that an object must have and these members leave out.
pub open spec fn left_out(rules: Seq<RuleView>, members: Seq<PlacedView>) -> Option<Seq<char>>
    decreases rules.len(),
{
    if rules.len() == 0 {
        None
    } else if rules[0].needed && !has_member(members, rules[0].name) {
        Some(rules[0].name)
    } else {
        left_out(rules.skip(1), members)
    }
}

/// How far a reader comes among items, each a field by its place.
pub open spec fn items_walk(b: Seq<u8>, rules: Seq<RuleView>, items: Seq<(int, int)>) -> Walk
    decreases items.len(),
{
    if items.len() == 0 {
        Walk::Through
    } else {
        match items_walk(b, rules, items.drop_last()) {
            Walk::Through => if items.len() <= rules.len() {
                value_walk(b, rules[items.len() - 1].kind, items.last().0, items.last().1)
            } else {
                Walk::Through
            },
            stopped => stopped,
        }
    }
}

/// How the fields of a record are counted.
pub open spec fn counted(what: Seq<char>, size: nat) -> Seq<char> {
    if size == 1 {
        "struct "@ + what + " with 1 element"@
    } else {
        "struct "@ + what + " with "@ + decimal(size) + " elements"@
    }
}

/// What is wrong with a piece of a text that should be a record `what`, whose first `least`
/// fields an array may not leave out: the first fault that a reader meets.
pub open spec fn record_fault(
    b: Seq<u8>,
    what: Seq<char>,
    rules: Seq<RuleView>,
    least: nat,
    start: int,
    end: int,
) -> Option<FaultView> {
    let parsed = parsed_bytes(piece(b, start, end));
    if 0 <= start < b.len() && b[start] == 123 {
        let members = members_from(b, start + 1);
        match members_walk(b, rules, members) {
            Walk::Fault(fault) => Some(fault),
            Walk::Broken => None,
            Walk::Through => match left_out(rules, members) {
                Some(name) if parsed is Ok => Some(
                    FaultView { words: missing_words(name), at: end },
                ),
                _ => None,
            },
        }
    } else if 0 <= start < b.len() && b[start] == 91 {
        let items = items_from(b, start + 1);
        match items_walk(b, rules, items) {
            Walk::Fault(fault) => Some(fault),
            Walk::Broken => None,
            Walk::Through => if items.len() > rules.len() {
                Some(
                    FaultView {
                        words: "trailing characters"@,
                        at: items[rules.len() as int].0 + 1,
                    },
                )
            } else if parsed is Ok && items.len() < least {
                Some(
                    FaultView {
                        words: length_words(items.len(), counted(what, rules.len())),
                        at: end,
                    },
                )
            } else {
                None
            },
        }
    } else {
        match parsed {
            Ok(json) => Some(wrong_value(json, "struct "@ + what, start, end)),
            Err(_) => None,
        }
    }
}

/// What is wrong with the first of these items that is no record `what`.
pub open spec fn records_fault(
    b: Seq<u8>,
    what: Seq<char>,
    rules: Seq<RuleView>,
    least: nat,
    items: Seq<(int, int)>,
) -> Option<FaultView>
    decreases items.len(),
{
    if items.len() == 0 {
        None
    } else {
        match records_fault(b, what, rules, least, items.drop_last()) {
            Some(fault) => Some(fault),
            None => record_fault(b, what, rules, least, items.last().0, items.last().1),
        }
    }
}

/// Where the value of a record's one field stands: the first member of its name, or the first
/// item.
pub open spec fn only_field(b: Seq<u8>, name: Seq<char>, start: int, end: int) -> Option<(int, int)> {
    match parsed_bytes(piece(b, start, end)) {
        Ok(JsonView::Object(_)) => first_named(members_from(b, start + 1), name),
        Ok(JsonView::Array(_)) => {
            let items = items_from(b, start + 1);
            if items.len() > 0 {
                Some(items[0])
            } else {
                None
            }
        },
        _ => None,
    }
}

/// Where the value of the first member of a name stands.
pub open spec fn first_named(members: Seq<PlacedView>, name: Seq<char>) -> Option<(int, int)>
    decreases members.len(),
{
    if members.len() == 0 {
        None
    } else if members[0].key == name {
        Some((members[0].start, members[0].end))
    } else {
        first_named(members.skip(1), name)
    }
}

/// What is wrong with a text that should be a record whose one field is a list of records.
pub open spec fn text_list_fault(
    b: Seq<u8>,
    what: Seq<char>,
    name: Seq<char>,
    item: Seq<char>,
    rules: Seq<RuleView>,
    least: nat,
) -> Option<FaultView> {
    let start = skip_gap(b, 0);
    let end = value_end(b, start);
    let inner = match only_field(b, name, start, end) {
        Some((from, to)) => match parsed_bytes(piece(b, from, to)) {
            Ok(JsonView::Array(_)) => records_fault(b, item, rules, least, items_from(b, from + 1)),
            _ => None,
        },
        None => None,
    };
    match inner {
        Some(fault) => Some(fault),
        None => record_fault(
            b,
            what,
            seq![RuleView { name, kind: Kind::List, needed: true }],
            1,
            start,
            end,
        ),
    }
}

/// What is wrong with a text that should be a record.
pub open spec fn text_record_fault(
    b: Seq<u8>,
    what: Seq<char>,
    rules: Seq<RuleView>,
    least: nat,
) -> Option<FaultView> {
    let start = skip_gap(b, 0);
    record_fault(b, what, rules, least, start, value_end(b, start))
}

// ---------------------------------------------------------------------------
// Finding faults
// ---------------------------------------------------------------------------

fn find_text_fault(b: &[u8], start: usize, end: usize) -> (fault: Option<Fault>)
    requires
        start <= end <= b@.len(),
    ensures
        fault_view(fault) == text_fault(b@, start as int, end as int),
        fault matches Some(fault) ==> 0 <= fault@.at <= b@.len(),
{
    match read_piece(b, start, end) {
        Some(json) => match json {
            Json::Text(_) => None,
            other => Some(refuse_value(&other, "a string", start, end)),
        },
        None => None,
    }
}

proof fn lemma_texts_fault(b: Seq<u8>, members: Seq<PlacedView>, n: int)
    requires
        0 <= n <= members.len(),
        texts_fault(b, members.take(n)) is Some,
    ensures
        texts_fault(b, members) == texts_fault(b, members.take(n)),
    decreases members.len() - n,
{
    if n < members.len() {
        assert(members.take(n + 1).drop_last() =~= members.take(n));
        lemma_texts_fault(b, members, n + 1);
    } else {
        assert(members.take(n) =~= members);
    }
}

fn find_texts_fault(b: &[u8], start: usize) -> (fault: Option<Fault>)
    requires
        start <= b@.len(),
    ensures
        fault_view(fault) == texts_fault(b@, members_from(b@, start as int)),
        fault matches Some(fault) ==> 0 <= fault@.at <= b@.len(),
{
    let members = read_members(b, start);
    let ghost views = placed_views(members@);
    let mut i: usize = 0;
    while i < members.len()
        invariant
            i <= members.len(),
            views == placed_views(members@),
            views == members_from(b@, start as int),
            texts_fault(b@, views.take(i as int)) is None,
            forall|k: int|
                0 <= k < members@.len() ==> 0 <= (#[trigger] members@[k])@.start <= members@[k]@.end
                    <= b@.len(),
        decreases members.len() - i,
    {
        proof {
            assert(views.take(i + 1).drop_last() =~= views.take(i as int));
            assert(views.take(i + 1).last() == members@[i as int]@);
        }
        match find_text_fault(b, members[i].start, members[i].end) {
            Some(fault) => {
                proof {
                    lemma_texts_fault(b@, views, i + 1);
                }
                return Some(fault);
            },
            None => {},
        }
        i += 1;
    }
    assert(views.take(i as int) =~= views);
    None
}

fn find_value_fault(b: &[u8], kind: Kind, start: usize, end: usize) -> (fault: Option<Fault>)
    requires
        start <= end <= b@.len(),
    ensures
        fault_view(fault) == value_fault(b@, kind, start as int, end as int),
        fault matches Some(fault) ==> 0 <= fault@.at <= b@.len(),
{
    let json = match read_piece(b, start, end) {
        Some(json) => json,
        None => {
            return None;
        },
    };
    match kind {
        Kind::Anything => None,
        Kind::Text => find_text_fault(b, start, end),
        Kind::OptionalText => match json {
            Json::Null => None,
            _ => find_text_fault(b, start, end),
        },
        Kind::OptionalBool => match json {
            Json::Null => None,
            Json::Bool(_) => None,
            other => Some(refuse_value(&other, "a boolean", start, end)),
        },
        Kind::OptionalMap => match json {
            Json::Null => None,
            Json::Object(_) => None,
            other => Some(refuse_value(&other, "a map", start, end)),
        },
        Kind::List => match json {
            Json::Array(_) => None,
            other => Some(refuse_value(&other, "a sequence", start, end)),
        },
        Kind::TextMap => match json {
            Json::Object(_) => {
                if start == b.len() {
                    proof {
                        lemma_nothing_behind(b@, start + 1);
                    }
                    None
                } else {
                    find_texts_fault(b, start + 1)
                }
            },
            other => Some(refuse_value(&other, "a map", start, end)),
        },
    }
}

/// Nothing follows behind the end of a text.
proof fn lemma_nothing_behind(b: Seq<u8>, i: int)
    requires
        i > b.len(),
    ensures
        members_from(b, i) == Seq::<PlacedView>::empty(),
        items_from(b, i) == Seq::<(int, int)>::empty(),
        texts_fault(b, members_from(b, i)) is None,
{
    assert(members_from(b, i) =~= Seq::empty());
    assert(items_from(b, i) =~= Seq::empty());
}

pub(crate) proof fn lemma_rule_index(rules: Seq<RuleView>, name: Seq<char>)
    ensures
        0 <= rule_index(rules, name) <= rules.len(),
        rule_index(rules, name) < rules.len() ==> rules[rule_index(rules, name)].name == name,
        forall|k: int| 0 <= k < rule_index(rules, name) ==> (#[trigger] rules[k]).name != name,
    decreases rules.len(),
{
    if rules.len() > 0 && rules[0].name != name {
        lemma_rule_index(rules.skip(1), name);
        assert forall|k: int| 0 <= k < rule_index(rules, name) implies (#[trigger] rules[k]).name
            != name by {
            if k > 0 {
                assert(rules.skip(1)[k - 1] == rules[k]);
            }
        }
    }
}

fn find_rule(rules: &[Rule], name: &str) -> (at: usize)
    ensures
        at == rule_index(rule_views(rules@), name@),
        at <= rules@.len(),
{
    let ghost views = rule_views(rules@);
    proof {
        lemma_rule_index(views, name@);
    }
    let mut i: usize = 0;
    while i < rules.len()
        invariant
            i <= rules@.len(),
            views == rule_views(rules@),
            i <= rule_index(views, name@) <= views.len(),
            rule_index(views, name@) < views.len() ==> views[rule_index(views, name@)].name
                == name@,
            forall|k: int|
                0 <= k < rule_index(views, name@) ==> (#[trigger] views[k]).name != name@,
        decreases rules.len() - i,
    {
        assert(views[i as int].name == rules@[i as int].name@);
        if same(rules[i].name, name) {
            return i;
        }
        i += 1;
    }
    i
}

fn find_member(members: &Vec<Placed>, count: usize, name: &str) -> (found: bool)
    requires
        count <= members@.len(),
    ensures
        found == has_member(placed_views(members@).take(count as int), name@),
{
    let ghost views = placed_views(members@).take(count as int);
    let mut i: usize = 0;
    while i < count
        invariant
            i <= count <= members@.len(),
            views == placed_views(members@).take(count as int),
            forall|k: int| 0 <= k < i ==> (#[trigger] views[k]).key != name@,
        decreases count - i,
    {
        assert(views[i as int] == members@[i as int]@);
        if same(members[i].key.as_str(), name) {
            return true;
        }
        i += 1;
    }
    false
}

/// How far a reader comes.
enum Found {
    Through,
    Fault(Fault),
    Broken,
}

impl View for Found {
    type V = Walk;

    closed spec fn view(&self) -> Walk {
        match *self {
            Found::Through => Walk::Through,
            Found::Fault(fault) => Walk::Fault(fault@),
            Found::Broken => Walk::Broken,
        }
    }
}

fn walk_value(b: &[u8], kind: Kind, start: usize, end: usize) -> (found: Found)
    requires
        start <= end <= b@.len(),
    ensures
        found@ == value_walk(b@, kind, start as int, end as int),
        found matches Found::Fault(fault) ==> 0 <= fault@.at <= b@.len(),
{
    match read_piece(b, start, end) {
        None => Found::Broken,
        Some(_) => match find_value_fault(b, kind, start, end) {
            Some(fault) => Found::Fault(fault),
            None => Found::Through,
        },
    }
}

proof fn lemma_members_walk(b: Seq<u8>, rules: Seq<RuleView>, members: Seq<PlacedView>, n: int)
    requires
        0 <= n <= members.len(),
        !(members_walk(b, rules, members.take(n)) is Through),
    ensures
        members_walk(b, rules, members) == members_walk(b, rules, members.take(n)),
    decreases members.len() - n,
{
    if n < members.len() {
        assert(members.take(n + 1).drop_last() =~= members.take(n));
        lemma_members_walk(b, rules, members, n + 1);
    } else {
        assert(members.take(n) =~= members);
    }
}

fn walk_members(b: &[u8], rules: &[Rule], members: &Vec<Placed>) -> (found: Found)
    requires
        forall|k: int|
            0 <= k < members@.len() ==> 0 <= (#[trigger] members@[k])@.start <= members@[k]@.end
                <= b@.len() && 0 <= members@[k]@.colon <= b@.len(),
    ensures
        found@ == members_walk(b@, rule_views(rules@), placed_views(members@)),
        found matches Found::Fault(fault) ==> 0 <= fault@.at <= b@.len(),
{
    let ghost views = placed_views(members@);
    let ghost fields = rule_views(rules@);
    let mut i: usize = 0;
    while i < members.len()
        invariant
            i <= members.len(),
            views == placed_views(members@),
            fields == rule_views(rules@),
            members_walk(b@, fields, views.take(i as int)) is Through,
            forall|k: int|
                0 <= k < members@.len() ==> 0 <= (#[trigger] members@[k])@.start <= members@[k]@.end
                    <= b@.len() && 0 <= members@[k]@.colon <= b@.len(),
        decreases members.len() - i,
    {
        proof {
            assert(views.take(i + 1).drop_last() =~= views.take(i as int));
            assert(views.take(i + 1).last() == members@[i as int]@);
        }
        let key = members[i].key.as_str();
        let at: usize = find_rule(rules, key);
        let found = if at == rules.len() {
            walk_value(b, Kind::Anything, members[i].start, members[i].end)
        } else {
            assert(fields[at as int].kind == rules@[at as int].kind);
            if find_member(members, i, key) {
                Found::Fault(
                    Fault {
                        words: "duplicate field `".to_owned().concat(key).concat("`"),
                        at: if members[i].colon < b.len() && b[members[i].colon] == 125 {
                            members[i].colon + 1
                        } else {
                            members[i].colon
                        },
                    },
                )
            } else {
                walk_value(b, rules[at].kind, members[i].start, members[i].end)
            }
        };
        match found {
            Found::Through => {},
            stopped => {
                proof {
                    lemma_members_walk(b@, fields, views, i + 1);
                }
                return stopped;
            },
        }
        i += 1;
    }
    assert(views.take(i as int) =~= views);
    Found::Through
}

fn find_left_out(rules: &[Rule], members: &Vec<Placed>) -> (name: Option<&'static str>)
    ensures
        match name {
            Some(name) => left_out(rule_views(rules@), placed_views(members@)) == Some(name@),
            None => left_out(rule_views(rules@), placed_views(members@)) is None,
        },
{
    let ghost fields = rule_views(rules@);
    let ghost views = placed_views(members@);
    assert(views.take(members@.len() as int) =~= views);
    assert(fields.skip(0) =~= fields);
    let mut i: usize = 0;
    while i < rules.len()
        invariant
            i <= rules@.len(),
            fields == rule_views(rules@),
            views == placed_views(members@),
            views.take(members@.len() as int) == views,
            left_out(fields, views) == left_out(fields.skip(i as int), views),
        decreases rules.len() - i,
    {
        proof {
            assert(fields.skip(i as int)[0] == fields[i as int]);
            assert(fields.skip(i as int).skip(1) =~= fields.skip(i + 1));
        }
        if rules[i].needed && !find_member(members, members.len(), rules[i].name) {
            return Some(rules[i].name);
        }
        i += 1;
    }
    None
}

proof fn lemma_items_walk(b: Seq<u8>, rules: Seq<RuleView>, items: Seq<(int, int)>, n: int)
    requires
        0 <= n <= items.len(),
        !(items_walk(b, rules, items.take(n)) is Through) || n == items.len() || n >= rules.len(),
    ensures
        items_walk(b, rules, items) == items_walk(b, rules, items.take(n)),
    decreases items.len() - n,
{
    if n < items.len() {
        assert(items.take(n + 1).drop_last() =~= items.take(n));
        lemma_items_walk(b, rules, items, n + 1);
    } else {
        assert(items.take(n) =~= items);
    }
}

fn walk_items(b: &[u8], rules: &[Rule], items: &Vec<(usize, usize)>) -> (found: Found)
    requires
        forall|k: int|
            0 <= k < items@.len() ==> (#[trigger] items@[k]).0 < items@[k].1 <= b@.len(),
    ensures
        found@ == items_walk(b@, rule_views(rules@), span_views(items@)),
        found matches Found::Fault(fault) ==> 0 <= fault@.at <= b@.len(),
{
    let ghost views = span_views(items@);
    let ghost fields = rule_views(rules@);
    let mut i: usize = 0;
    while i < items.len() && i < rules.len()
        invariant
            i <= items.len(),
            i <= rules@.len(),
            views == span_views(items@),
            fields == rule_views(rules@),
            items_walk(b@, fields, views.take(i as int)) is Through,
            forall|k: int|
                0 <= k < items@.len() ==> (#[trigger] items@[k]).0 < items@[k].1 <= b@.len(),
        decreases items.len() - i,
    {
        proof {
            assert(views.take(i + 1).drop_last() =~= views.take(i as int));
            assert(views.take(i + 1).last() == (items@[i as int].0 as int, items@[i as int].1 as int));
            assert(fields[i as int].kind == rules@[i as int].kind);
        }
        match walk_value(b, rules[i].kind, items[i].0, items[i].1) {
            Found::Through => {},
            stopped => {
                proof {
                    lemma_items_walk(b@, fields, views, i + 1);
                }
                return stopped;
            },
        }
        i += 1;
    }
    proof {
        lemma_items_walk(b@, fields, views, i as int);
    }
    Found::Through
}

/// Finds what is wrong with a piece of a text that should be a record.
pub fn find_record_fault(
    b: &[u8],
    what: &str,
    rules: &[Rule],
    least: usize,
    start: usize,
    end: usize,
) -> (fault: Option<Fault>)
    requires
        start <= end <= b@.len(),
    ensures
        fault_view(fault) == record_fault(
            b@,
            what@,
            rule_views(rules@),
            least as nat,
            start as int,
            end as int,
        ),
        fault matches Some(fault) ==> 0 <= fault@.at <= b@.len(),
{
    let json = read_piece(b, start, end);
    if start < b.len() && b[start] == 123 {
        let members = read_members(b, start + 1);
        match walk_members(b, rules, &members) {
            Found::Fault(fault) => Some(fault),
            Found::Broken => None,
            Found::Through => match find_left_out(rules, &members) {
                Some(name) => if json.is_some() {
                    Some(Fault { words: missing(name), at: end })
                } else {
                    None
                },
                None => None,
            },
        }
    } else if start < b.len() && b[start] == 91 {
        let items = read_items(b, start + 1);
        assert(items@.len() == span_views(items@).len());
        match walk_items(b, rules, &items) {
            Found::Fault(fault) => Some(fault),
            Found::Broken => None,
            Found::Through => if items.len() > rules.len() {
                let extra = items[rules.len()];
                assert(span_views(items@)[rules@.len() as int] == (extra.0 as int, extra.1 as int));
                Some(Fault { words: "trailing characters".to_owned(), at: extra.0 + 1 })
            } else if json.is_some() && items.len() < least {
                let expected = if rules.len() == 1 {
                    "struct ".to_owned().concat(what).concat(" with 1 element")
                } else {
                    "struct ".to_owned().concat(what).concat(" with ").concat(
                        render_decimal(rules.len() as u64).as_str(),
                    ).concat(" elements")
                };
                Some(Fault { words: wrong_length(items.len(), expected.as_str()), at: end })
            } else {
                None
            },
        }
    } else {
        match json {
            Some(json) => Some(
                refuse_value(&json, "struct ".to_owned().concat(what).as_str(), start, end),
            ),
            None => None,
        }
    }
}

/// Tells what is wrong with a text that should be a record.
pub fn refuse_text(b: &[u8], what: &str, rules: &[Rule], least: usize) -> (refusal: Option<String>)
    ensures
        match text_record_fault(b@, what@, rule_views(rules@), least as nat) {
            Some(fault) => refusal matches Some(words) && words@ == located(b@, fault),
            None => refusal is None,
        },
{
    let start: usize = skip_gap_at(b, 0);
    let end: usize = value_end_at(b, start);
    match find_record_fault(b, what, rules, least, start, end) {
        Some(fault) => Some(fault.locate(b)),
        None => None,
    }
}

proof fn lemma_records_fault(
    b: Seq<u8>,
    what: Seq<char>,
    rules: Seq<RuleView>,
    least: nat,
    items: Seq<(int, int)>,
    n: int,
)
    requires
        0 <= n <= items.len(),
        records_fault(b, what, rules, least, items.take(n)) is Some,
    ensures
        records_fault(b, what, rules, least, items) == records_fault(
            b,
            what,
            rules,
            least,
            items.take(n),
        ),
    decreases items.len() - n,
{
    if n < items.len() {
        assert(items.take(n + 1).drop_last() =~= items.take(n));
        lemma_records_fault(b, what, rules, least, items, n + 1);
    } else {
        assert(items.take(n) =~= items);
    }
}

fn find_records_fault(b: &[u8], what: &str, rules: &[Rule], least: usize, start: usize) -> (fault:
    Option<Fault>)
    requires
        start <= b@.len(),
    ensures
        fault_view(fault) == records_fault(
            b@,
            what@,
            rule_views(rules@),
            least as nat,
            items_from(b@, start as int),
        ),
        fault matches Some(fault) ==> 0 <= fault@.at <= b@.len(),
{
    let items = read_items(b, start);
    let ghost views = span_views(items@);
    let ghost fields = rule_views(rules@);
    let mut i: usize = 0;
    while i < items.len()
        invariant
            i <= items.len(),
            views == span_views(items@),
            views == items_from(b@, start as int),
            fields == rule_views(rules@),
            records_fault(b@, what@, fields, least as nat, views.take(i as int)) is None,
            forall|k: int|
                0 <= k < items@.len() ==> (#[trigger] items@[k]).0 < items@[k].1 <= b@.len(),
        decreases items.len() - i,
    {
        proof {
            assert(views.take(i + 1).drop_last() =~= views.take(i as int));
            assert(views.take(i + 1).last() == (items@[i as int].0 as int, items@[i as int].1 as int));
        }
        match find_record_fault(b, what, rules, least, items[i].0, items[i].1) {
            Some(fault) => {
                proof {
                    lemma_records_fault(b@, what@, fields, least as nat, views, i + 1);
                }
                return Some(fault);
            },
            None => {},
        }
        i += 1;
    }
    assert(views.take(i as int) =~= views);
    None
}

fn find_only_field(b: &[u8], name: &str, start: usize, end: usize) -> (place: Option<(usize, usize)>)
    requires
        start <= end <= b@.len(),
    ensures
        match place {
            Some((from, to)) => only_field(b@, name@, start as int, end as int) == Some(
                (from as int, to as int),
            ) && from <= to <= b@.len(),
            None => only_field(b@, name@, start as int, end as int) is None,
        },
{
    let json = match read_piece(b, start, end) {
        Some(json) => json,
        None => {
            return None;
        },
    };
    if start == b.len() {
        proof {
            lemma_nothing_behind(b@, start + 1);
        }
        return None;
    }
    match json {
        Json::Object(_) => {
            let members = read_members(b, start + 1);
            let ghost views = placed_views(members@);
            assert(views.skip(0) =~= views);
            let mut i: usize = 0;
            while i < members.len()
                invariant
                    i <= members.len(),
                    views == placed_views(members@),
                    only_field(b@, name@, start as int, end as int) == first_named(views, name@),
                    first_named(views, name@) == first_named(views.skip(i as int), name@),
                    forall|k: int|
                        0 <= k < members@.len() ==> 0 <= (#[trigger] members@[k])@.start
                            <= members@[k]@.end <= b@.len(),
                decreases members.len() - i,
            {
                proof {
                    assert(views.skip(i as int)[0] == members@[i as int]@);
                    assert(views.skip(i as int).skip(1) =~= views.skip(i + 1));
                }
                if same(members[i].key.as_str(), name) {
                    return Some((members[i].start, members[i].end));
                }
                i += 1;
            }
            None
        },
        Json::Array(_) => {
            let items = read_items(b, start + 1);
            assert(items@.len() == span_views(items@).len());
            if items.len() > 0 {
                assert(span_views(items@)[0] == (items@[0].0 as int, items@[0].1 as int));
                Some(items[0])
            } else {
                None
            }
        },
        _ => None,
    }
}

/// Tells what is wrong with a text that should be a record whose one field is a list of
/// records.
pub fn refuse_list_text(
    b: &[u8],
    what: &str,
    name: &'static str,
    item: &str,
    rules: &[Rule],
    least: usize,
) -> (refusal: Option<String>)
    ensures
        match text_list_fault(b@, what@, name@, item@, rule_views(rules@), least as nat) {
            Some(fault) => refusal matches Some(words) && words@ == located(b@, fault),
            None => refusal is None,
        },
{
    let start: usize = skip_gap_at(b, 0);
    let end: usize = value_end_at(b, start);
    let inner = match find_only_field(b, name, start, end) {
        Some((from, to)) => match read_piece(b, from, to) {
            Some(Json::Array(_)) => {
                if from < b.len() {
                    find_records_fault(b, item, rules, least, from + 1)
                } else {
                    proof {
                        lemma_nothing_behind(b@, from + 1);
                    }
                    None
                }
            },
            _ => None,
        },
        None => None,
    };
    match inner {
        Some(fault) => Some(fault.locate(b)),
        None => {
            let outer = vec![Rule { name, kind: Kind::List, needed: true }];
            assert(rule_views(outer@) =~= seq![
                RuleView { name: name@, kind: Kind::List, needed: true },
            ]);
            match find_record_fault(b, what, outer.as_slice(), 1, start, end) {
                Some(fault) => Some(fault.locate(b)),
                None => None,
            }
        },
    }
}

// ---------------------------------------------------------------------------
// Laws
// ---------------------------------------------------------------------------

/// A reader who comes through all members met no field twice.
pub proof fn fields_come_once(b: Seq<u8>, rules: Seq<RuleView>, members: Seq<PlacedView>, i: int, j: int)
    requires
        members_walk(b, rules, members) is Through,
        0 <= i < j < members.len(),
        rule_index(rules, members[j].key) < rules.len(),
    ensures
        members[i].key != members[j].key,
    decreases members.len(),
{
    let before = members.drop_last();
    lemma_rule_index(rules, members[j].key);
    if j == members.len() - 1 {
        assert(before[i] == members[i]);
    } else {
        fields_come_once(b, rules, before, i, j);
    }
}

} // verus!
