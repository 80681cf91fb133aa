//! What is gathered of an event or a span.

use vstd::prelude::*;

use crate::digits::{decimal, render_decimal, render_signed, signed_decimal};
use crate::json::text_view;
use crate::string_map::{inserted, Pair, StringMap};
use crate::text::same;

verus! {

/// The field that names an event.
pub const EVENT_FIELD: &'static str = "event";

/// What is gathered of an event or a span while its fields are visited.
#[derive(Debug)]
pub struct NotifyVisitor {
    /// The event's name, if there was one.
    pub event_name: Option<String>,
    /// The other fields.
    pub fields: StringMap,
}

/// What is gathered of an event or a span.
pub struct VisitView {
    /// The event's name.
    pub event_name: Option<Seq<char>>,
    /// The other fields.
    pub fields: Seq<Pair>,
}

impl View for NotifyVisitor {
    type V = VisitView;

    open spec fn view(&self) -> VisitView {
        VisitView { event_name: text_view(self.event_name), fields: self.fields@ }
    }
}

/// What is gathered after a text was visited: the event's name is kept apart.
pub open spec fn visited(before: VisitView, name: Seq<char>, value: Seq<char>) -> VisitView {
    if name == EVENT_FIELD@ {
        VisitView { event_name: Some(value), ..before }
    } else {
        VisitView { fields: inserted(before.fields, name, value), ..before }
    }
}

/// A text without the double quotes around it, if it has both.
pub open spec fn unquoted(s: Seq<char>) -> Seq<char> {
    if s.len() >= 2 && s[0] == '"' && s.last() == '"' {
        s.subrange(1, s.len() - 1)
    } else {
        s
    }
}

/// A text without the double quotes around it, if it has both.
pub fn strip_debug_quotes(s: &str) -> (inner: &str)
    ensures
        inner@ == unquoted(s@),
{
    let length: usize = s.unicode_len();
    if length >= 2 && s.get_char(0) == '"' && s.get_char(length - 1) == '"' {
        s.substring_char(1, length - 1)
    } else {
        s
    }
}

impl NotifyVisitor {
    /// Nothing gathered yet.
    pub fn new() -> (visitor: Self)
        ensures
            visitor@ == (VisitView { event_name: None, fields: Seq::empty() }),
    {
        NotifyVisitor { event_name: None, fields: StringMap::new() }
    }

    /// Visits a text.
    pub fn record_str(self, name: &str, value: &str) -> (visitor: Self)
        ensures
            visitor@ == visited(self@, name@, value@),
    {
        if same(name, EVENT_FIELD) {
            NotifyVisitor { event_name: Some(value.to_owned()), fields: self.fields }
        } else {
            NotifyVisitor { event_name: self.event_name, fields: self.fields.with(name, value) }
        }
    }

    /// Visits a value by its debug rendering: the quotes of a text are dropped.
    pub fn record_debug(self, name: &str, rendered: &str) -> (visitor: Self)
        ensures
            visitor@ == visited(self@, name@, unquoted(rendered@)),
    {
        self.record_str(name, strip_debug_quotes(rendered))
    }

    /// Visits a number or a truth value by its rendering. It is never the event's name.
    pub fn record_plain(self, name: &str, rendered: &str) -> (visitor: Self)
        ensures
            visitor@ == (VisitView {
                fields: inserted(self@.fields, name@, rendered@),
                ..self@
            }),
    {
        NotifyVisitor { event_name: self.event_name, fields: self.fields.with(name, rendered) }
    }

    /// Visits a signed number.
    pub fn record_i64(self, name: &str, value: i64) -> (visitor: Self)
        ensures
            visitor@ == (VisitView {
                fields: inserted(self@.fields, name@, signed_decimal(value as int)),
                ..self@
            }),
    {
        self.record_plain(name, render_signed(value).as_str())
    }

    /// Visits an unsigned number.
    pub fn record_u64(self, name: &str, value: u64) -> (visitor: Self)
        ensures
            visitor@ == (VisitView {
                fields: inserted(self@.fields, name@, decimal(value as nat)),
                ..self@
            }),
    {
        self.record_plain(name, render_decimal(value).as_str())
    }

    /// Visits a truth value.
    pub fn record_bool(self, name: &str, value: bool) -> (visitor: Self)
        ensures
            visitor@ == (VisitView {
                fields: inserted(
                    self@.fields,
                    name@,
                    if value {
                        "true"@
                    } else {
                        "false"@
                    },
                ),
                ..self@
            }),
    {
        self.record_plain(name, if value { "true" } else { "false" })
    }
}

} // verus!
