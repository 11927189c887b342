//! A plain model of JSON documents.

use vstd::prelude::*;

verus! {

/// A JSON number: its source text and, where it is an integer in `i64`
/// range, that integer.
pub struct JsonNumber {
    pub text: String,
    pub int_value: Option<i64>,
}

/// A JSON document.
pub enum JsonValue {
    Null,
    Bool(bool),
    Number(JsonNumber),
    Str(String),
    Array(Vec<JsonValue>),
    Object(Vec<(String, JsonValue)>),
}

/// The mathematical form of a JSON document.
pub enum JsonView {
    Null,
    Bool(bool),
    Number(Seq<char>, Option<i64>),
    Str(Seq<char>),
    Array(Seq<JsonView>),
    Object(Seq<(Seq<char>, JsonView)>),
}

/// The mathematical form of a document.
pub open spec fn json_view(v: JsonValue) -> JsonView
    decreases v,
{
    match v {
        JsonValue::Null => JsonView::Null,
        JsonValue::Bool(b) => JsonView::Bool(b),
        JsonValue::Number(n) => JsonView::Number(n.text@, n.int_value),
        JsonValue::Str(s) => JsonView::Str(s@),
        JsonValue::Array(items) => JsonView::Array(items_view(items@)),
        JsonValue::Object(entries) => JsonView::Object(entries_view(entries@)),
    }
}

/// The mathematical form of a sequence of documents.
pub open spec fn items_view(items: Seq<JsonValue>) -> Seq<JsonView>
    decreases items,
{
    if items.len() == 0 {
        Seq::empty()
    } else {
        items_view(items.drop_last()).push(json_view(items.last()))
    }
}

/// The mathematical form of a sequence of object members.
pub open spec fn entries_view(entries: Seq<(String, JsonValue)>) -> Seq<(Seq<char>, JsonView)>
    decreases entries,
{
    if entries.len() == 0 {
        Seq::empty()
    } else {
        entries_view(entries.drop_last()).push((entries.last().0@, json_view(entries.last().1)))
    }
}

/// `items_view` maps each document to its form.
pub proof fn lemma_items_view(items: Seq<JsonValue>)
    ensures
        items_view(items).len() == items.len(),
        forall|i: int| 0 <= i < items.len() ==> #[trigger] items_view(items)[i] == json_view(items[i]),
    decreases items.len(),
{
    if items.len() > 0 {
        lemma_items_view(items.drop_last());
    }
}

/// `entries_view` maps each member to its name and form.
pub proof fn lemma_entries_view(entries: Seq<(String, JsonValue)>)
    ensures
        entries_view(entries).len() == entries.len(),
        forall|i: int|
            0 <= i < entries.len() ==> #[trigger] entries_view(entries)[i] == (
                entries[i].0@,
                json_view(entries[i].1),
            ),
    decreases entries.len(),
{
    if entries.len() > 0 {
        lemma_entries_view(entries.drop_last());
    }
}

impl View for JsonValue {
    type V = JsonView;

    open spec fn view(&self) -> JsonView {
        json_view(*self)
    }
}

/// The value of the first entry named `key` among `entries`.
pub open spec fn lookup(entries: Seq<(Seq<char>, JsonView)>, key: Seq<char>) -> Option<JsonView>
    decreases entries.len(),
{
    if entries.len() == 0 {
        None
    } else if entries[0].0 == key {
        Some(entries[0].1)
    } else {
        lookup(entries.drop_first(), key)
    }
}

/// `value.get(key)`: the member named `key` of an object, `None` for any
/// other value.
pub open spec fn field(v: JsonView, key: Seq<char>) -> Option<JsonView> {
    match v {
        JsonView::Object(entries) => lookup(entries, key),
        _ => None,
    }
}

/// `field(v, key)` or, where it is absent, `v` itself
/// (`value.get(key).unwrap_or(value)`).
pub open spec fn field_or_self(v: JsonView, key: Seq<char>) -> JsonView {
    match field(v, key) {
        Some(x) => x,
        None => v,
    }
}

/// `value.as_str()`.
pub open spec fn as_text(v: JsonView) -> Option<Seq<char>> {
    match v {
        JsonView::Str(s) => Some(s),
        _ => None,
    }
}

/// `value.as_i64()`.
pub open spec fn as_int(v: JsonView) -> Option<i64> {
    match v {
        JsonView::Number(_, i) => i,
        _ => None,
    }
}

/// `value.as_bool()`.
pub open spec fn as_flag(v: JsonView) -> Option<bool> {
    match v {
        JsonView::Bool(b) => Some(b),
        _ => None,
    }
}

/// `value.as_array()`.
pub open spec fn as_items(v: JsonView) -> Option<Seq<JsonView>> {
    match v {
        JsonView::Array(items) => Some(items),
        _ => None,
    }
}

/// Member lookup, step by step from entry `i`.
proof fn lemma_lookup_from(entries: Seq<(Seq<char>, JsonView)>, key: Seq<char>, i: int)
    requires
        0 <= i < entries.len(),
    ensures
        lookup(entries.subrange(i, entries.len() as int), key) == if entries[i].0 == key {
            Some(entries[i].1)
        } else {
            lookup(entries.subrange(i + 1, entries.len() as int), key)
        },
{
    let sub = entries.subrange(i, entries.len() as int);
    assert(sub[0] == entries[i]);
    assert(sub.drop_first() == entries.subrange(i + 1, entries.len() as int));
}

impl JsonValue {
    /// The member named `key`, where `self` is an object that has one.
    pub fn get(&self, key: &str) -> (r: Option<&JsonValue>)
        ensures
            r is None <==> field(self@, key@) is None,
            r matches Some(x) ==> field(self@, key@) == Some(x@),
    {
        match self {
            JsonValue::Object(entries) => {
                let ghost view_entries = match self@ {
                    JsonView::Object(es) => es,
                    _ => Seq::empty(),
                };
                assert(self@ == JsonView::Object(view_entries));
                proof {
                    lemma_entries_view(entries@);
                }
                assert(view_entries.len() == entries@.len());
                assert forall|j: int| 0 <= j < entries@.len() implies #[trigger] view_entries[j] == (
                    entries@[j].0@,
                    entries@[j].1@,
                ) by {}
                assert(view_entries.subrange(0, view_entries.len() as int) == view_entries);
                let mut i: usize = 0;
                while i < entries.len()
                    invariant
                        self@ == JsonView::Object(view_entries),
                        i <= entries.len() == view_entries.len(),
                        forall|j: int|
                            0 <= j < entries@.len() ==> #[trigger] view_entries[j] == (
                                entries@[j].0@,
                                entries@[j].1@,
                            ),
                        lookup(view_entries, key@) == lookup(
                            view_entries.subrange(i as int, view_entries.len() as int),
                            key@,
                        ),
                    decreases entries.len() - i,
                {
                    proof {
                        lemma_lookup_from(view_entries, key@, i as int);
                    }
                    assert(view_entries[i as int] == (entries@[i as int].0@, entries@[i as int].1@));
                    if crate::text::str_eq(entries[i].0.as_str(), key) {
                        return Some(&entries[i].1);
                    }
                    i += 1;
                }
                assert(view_entries.subrange(i as int, view_entries.len() as int).len() == 0);
                None
            },
            _ => None,
        }
    }

    /// The text of a string value.
    pub fn as_str(&self) -> (r: Option<&String>)
        ensures
            r is None <==> as_text(self@) is None,
            r matches Some(s) ==> as_text(self@) == Some(s@),
    {
        match self {
            JsonValue::Str(s) => Some(s),
            _ => None,
        }
    }

    /// The integer of a number value that fits in `i64`.
    pub fn as_i64(&self) -> (r: Option<i64>)
        ensures
            r == as_int(self@),
    {
        match self {
            JsonValue::Number(n) => n.int_value,
            _ => None,
        }
    }

    /// The value of a boolean.
    pub fn as_bool(&self) -> (r: Option<bool>)
        ensures
            r == as_flag(self@),
    {
        match self {
            JsonValue::Bool(b) => Some(*b),
            _ => None,
        }
    }

    /// The items of an array.
    pub fn as_array(&self) -> (r: Option<&Vec<JsonValue>>)
        ensures
            r is None <==> as_items(self@) is None,
            r matches Some(items) ==> as_items(self@) == Some(items@.map_values(|x: JsonValue| x@)),
    {
        match self {
            JsonValue::Array(items) => {
                proof {
                    lemma_items_view(items@);
                }
                let ghost es = match self@ {
                    JsonView::Array(es) => es,
                    _ => Seq::empty(),
                };
                assert(es =~= items@.map_values(|x: JsonValue| x@));
                Some(items)
            },
            _ => None,
        }
    }

    /// Whether the value is `null`.
    pub fn is_null(&self) -> (r: bool)
        ensures
            r == (self@ == JsonView::Null),
    {
        match self {
            JsonValue::Null => true,
            _ => false,
        }
    }
}


/// The member found by name is the first one with that name.
pub proof fn lemma_lookup_at(entries: Seq<(Seq<char>, JsonView)>, key: Seq<char>, i: int)
    requires
        0 <= i < entries.len(),
        entries[i].0 == key,
        forall|j: int| 0 <= j < i ==> entries[j].0 != key,
    ensures
        lookup(entries, key) == Some(entries[i].1),
    decreases i,
{
    if i > 0 {
        assert forall|j: int| 0 <= j < i - 1 implies entries.drop_first()[j].0 != key by {
            assert(entries.drop_first()[j] == entries[j + 1]);
        }
        lemma_lookup_at(entries.drop_first(), key, i - 1);
    }
}

} // verus!
