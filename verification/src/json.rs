//! A plain JSON document model.
//!
//! The logic of this crate reads JSON documents (skill manifests, tool
//! arguments) but never parses or prints them: callers convert their parsed
//! documents into [`JsonValue`], which keeps object members in document order.

use vstd::prelude::*;

use crate::text::{all_digits, chars_eq, chars_of, digits_value, parse_digits_bounded};

verus! {

/// A JSON value. Numbers keep their textual form; objects keep their members
/// in order (a parsed document has no repeated keys).
#[derive(Debug, PartialEq)]
pub enum JsonValue {
    Null,
    Bool(bool),
    Number(String),
    String(String),
    Array(Vec<JsonValue>),
    Object(Vec<(String, JsonValue)>),
}

/// The first member named `key` among `fields[i..]`.
pub open spec fn field_lookup(fields: Seq<(String, JsonValue)>, key: Seq<char>, i: int) -> Option<
    JsonValue,
>
    decreases fields.len() - i,
{
    if i < 0 || i >= fields.len() {
        None
    } else if fields[i].0@ == key {
        Some(fields[i].1)
    } else {
        field_lookup(fields, key, i + 1)
    }
}

/// `v[key]` for an object `v`; `None` for other values (`Value::get`).
pub open spec fn json_get(v: JsonValue, key: Seq<char>) -> Option<JsonValue> {
    match v {
        JsonValue::Object(fields) => field_lookup(fields@, key, 0),
        _ => None,
    }
}

/// The text of a JSON string (`Value::as_str`).
pub open spec fn json_as_str(v: JsonValue) -> Option<Seq<char>> {
    match v {
        JsonValue::String(s) => Some(s@),
        _ => None,
    }
}

/// The integer a number's text denotes when it is an optional `-` followed by
/// decimal digits and fits an `i64` (`Value::as_i64`; fractions and exponents
/// are not integers).
pub open spec fn spec_int_text(t: Seq<char>) -> Option<i64> {
    if t.len() > 0 && t[0] == '-' {
        let u = t.drop_first();
        if u.len() > 0 && all_digits(u) && digits_value(u) <= 9223372036854775808 {
            Some((-(digits_value(u) as int)) as i64)
        } else {
            None
        }
    } else if t.len() > 0 && all_digits(t) && digits_value(t) <= 9223372036854775807 {
        Some(digits_value(t) as i64)
    } else {
        None
    }
}

/// The integer value of a JSON number (`Value::as_i64`).
pub open spec fn json_as_i64(v: JsonValue) -> Option<i64> {
    match v {
        JsonValue::Number(t) => spec_int_text(t@),
        _ => None,
    }
}

/// The unsigned integer value of a JSON number (`Value::as_u64`): decimal
/// digits denoting at most `u64::MAX`.
pub open spec fn json_as_u64(v: JsonValue) -> Option<u64> {
    match v {
        JsonValue::Number(t) => if t@.len() > 0 && all_digits(t@) && digits_value(t@) <= 18446744073709551615 {
            Some(digits_value(t@) as u64)
        } else {
            None
        },
        _ => None,
    }
}

/// The item at position `i` of an array (`value[i]`; `None` for other
/// values or past the end).
pub open spec fn json_at(v: JsonValue, i: int) -> Option<JsonValue> {
    match v {
        JsonValue::Array(items) => if 0 <= i < items@.len() {
            Some(items@[i])
        } else {
            None
        },
        _ => None,
    }
}

/// The value of a JSON boolean (`Value::as_bool`).
pub open spec fn json_as_bool(v: JsonValue) -> Option<bool> {
    match v {
        JsonValue::Bool(b) => Some(b),
        _ => None,
    }
}

impl JsonValue {
    /// The integer value of a number that is an integer fitting `i64`.
    pub fn as_i64(&self) -> (r: Option<i64>)
        ensures
            r == json_as_i64(*self),
    {
        match self {
            JsonValue::Number(t) => {
                let c = chars_of(t.as_str());
                if c.len() > 0 && c[0] == '-' {
                    assert(c@.subrange(1, c@.len() as int) == c@.drop_first());
                    match parse_digits_bounded(&c, 1, 9223372036854775808) {
                        Some(v) => {
                            let r: i128 = -(v as i128);
                            Some(r as i64)
                        },
                        None => None,
                    }
                } else {
                    assert(c@.subrange(0, c@.len() as int) == c@);
                    match parse_digits_bounded(&c, 0, 9223372036854775807) {
                        Some(v) => Some(v as i64),
                        None => None,
                    }
                }
            },
            _ => None,
        }
    }

    /// The value of a number that is an unsigned integer fitting `u64`.
    pub fn as_u64(&self) -> (r: Option<u64>)
        ensures
            r == json_as_u64(*self),
    {
        match self {
            JsonValue::Number(t) => {
                let c = chars_of(t.as_str());
                assert(c@.subrange(0, c@.len() as int) == c@);
                parse_digits_bounded(&c, 0, 18446744073709551615)
            },
            _ => None,
        }
    }

    /// The value of a boolean.
    pub fn as_bool(&self) -> (r: Option<bool>)
        ensures
            r == json_as_bool(*self),
    {
        match self {
            JsonValue::Bool(b) => Some(*b),
            _ => None,
        }
    }

    /// The member named `key` of an object (`None` for other values).
    pub fn get(&self, key: &str) -> (r: Option<&JsonValue>)
        ensures
            match r {
                Some(x) => json_get(*self, key@) == Some(*x),
                None => json_get(*self, key@) is None,
            },
    {
        match self {
            JsonValue::Object(fields) => {
                let k = chars_of(key);
                let mut i: usize = 0;
                while i < fields.len()
                    invariant
                        i <= fields.len(),
                        k@ == key@,
                        json_get(*self, key@) == field_lookup(fields@, key@, 0),
                        field_lookup(fields@, key@, 0) == field_lookup(fields@, key@, i as int),
                    decreases fields.len() - i,
                {
                    let name = chars_of(fields[i].0.as_str());
                    if chars_eq(&name, &k) {
                        assert(fields@[i as int].0@ == key@);
                        assert(field_lookup(fields@, key@, i as int) == Some(fields@[i as int].1));
                        return Some(&fields[i].1);
                    }
                    i = i + 1;
                }
                None
            },
            _ => None,
        }
    }

    /// The item at position `i` of an array (`None` for other values or
    /// past the end).
    pub fn at(&self, i: usize) -> (r: Option<&JsonValue>)
        ensures
            match r {
                Some(x) => json_at(*self, i as int) == Some(*x),
                None => json_at(*self, i as int) is None,
            },
    {
        match self {
            JsonValue::Array(items) => if i < items.len() {
                Some(&items[i])
            } else {
                None
            },
            _ => None,
        }
    }

    /// The text of a string value (`None` for other values).
    pub fn as_str(&self) -> (r: Option<&str>)
        ensures
            match r {
                Some(s) => json_as_str(*self) == Some(s@),
                None => json_as_str(*self) is None,
            },
    {
        match self {
            JsonValue::String(s) => Some(s.as_str()),
            _ => None,
        }
    }
}


// ── Deep view, copying and text ──────────────────────────────────────────────

/// The content of a JSON value as mathematical sequences.
pub enum JsonView {
    Null,
    Bool(bool),
    Number(Seq<char>),
    Str(Seq<char>),
    Array(Seq<JsonView>),
    Object(Seq<(Seq<char>, JsonView)>),
}

/// The content of `v`.
pub open spec fn json_view(v: JsonValue) -> JsonView
    decreases v, 0int,
{
    match v {
        JsonValue::Null => JsonView::Null,
        JsonValue::Bool(b) => JsonView::Bool(b),
        JsonValue::Number(t) => JsonView::Number(t@),
        JsonValue::String(s) => JsonView::Str(s@),
        JsonValue::Array(items) => JsonView::Array(items_view(items@, 0)),
        JsonValue::Object(fields) => JsonView::Object(fields_view(fields@, 0)),
    }
}

/// The contents of `items[i..]`.
pub open spec fn items_view(items: Seq<JsonValue>, i: int) -> Seq<JsonView>
    decreases items, items.len() - i,
{
    if i < 0 || i >= items.len() {
        seq![]
    } else {
        seq![json_view(items[i])] + items_view(items, i + 1)
    }
}

/// The contents of the members `fields[i..]`.
pub open spec fn fields_view(fields: Seq<(String, JsonValue)>, i: int) -> Seq<(Seq<char>, JsonView)>
    decreases fields, fields.len() - i,
{
    if i < 0 || i >= fields.len() {
        seq![]
    } else {
        seq![(fields[i].0@, json_view(fields[i].1))] + fields_view(fields, i + 1)
    }
}

/// A copy of `v` with the same content.
pub fn json_clone(v: &JsonValue) -> (r: JsonValue)
    ensures
        json_view(r) == json_view(*v),
    decreases v,
{
    match v {
        JsonValue::Null => JsonValue::Null,
        JsonValue::Bool(b) => JsonValue::Bool(*b),
        JsonValue::Number(t) => JsonValue::Number(t.clone()),
        JsonValue::String(s) => JsonValue::String(s.clone()),
        JsonValue::Array(items) => {
            let mut out: Vec<JsonValue> = Vec::new();
            let mut i: usize = 0;
            while i < items.len()
                invariant
                    i <= items.len(),
                    *v == JsonValue::Array(*items),
                    out@.len() == i,
                    forall|j: int| 0 <= j < i ==> json_view(#[trigger] out@[j]) == json_view(items@[j]),
                decreases items.len() - i,
            {
                assert(decreases_to!(*v => (*v)->Array_0));
                assert(decreases_to!(*items => items@));
                assert(decreases_to!(items@ => items@[i as int]));
                assert(decreases_to!(*v => items@[i as int]));
                let c = json_clone(&items[i]);
                out.push(c);
                i = i + 1;
            }
            proof {
                lemma_items_view_same(out@, items@, 0);
            }
            JsonValue::Array(out)
        },
        JsonValue::Object(fields) => {
            let mut out: Vec<(String, JsonValue)> = Vec::new();
            let mut i: usize = 0;
            while i < fields.len()
                invariant
                    i <= fields.len(),
                    *v == JsonValue::Object(*fields),
                    out@.len() == i,
                    forall|j: int|
                        0 <= j < i ==> (#[trigger] out@[j]).0@ == fields@[j].0@ && json_view(out@[j].1)
                            == json_view(fields@[j].1),
                decreases fields.len() - i,
            {
                assert(decreases_to!(*v => (*v)->Object_0));
                assert(decreases_to!(*fields => fields@));
                assert(decreases_to!(fields@ => fields@[i as int]));
                assert(decreases_to!(fields@[i as int] => fields@[i as int].1));
                assert(decreases_to!(*v => fields@[i as int].1));
                let c = json_clone(&fields[i].1);
                out.push((fields[i].0.clone(), c));
                i = i + 1;
            }
            proof {
                lemma_fields_view_same(out@, fields@, 0);
            }
            JsonValue::Object(out)
        },
    }
}

proof fn lemma_items_view_same(a: Seq<JsonValue>, b: Seq<JsonValue>, i: int)
    requires
        a.len() == b.len(),
        0 <= i <= a.len(),
        forall|j: int| 0 <= j < a.len() ==> json_view(#[trigger] a[j]) == json_view(b[j]),
    ensures
        items_view(a, i) == items_view(b, i),
    decreases a.len() - i,
{
    if i < a.len() {
        lemma_items_view_same(a, b, i + 1);
        assert(json_view(a[i]) == json_view(b[i]));
    }
}

proof fn lemma_fields_view_same(a: Seq<(String, JsonValue)>, b: Seq<(String, JsonValue)>, i: int)
    requires
        a.len() == b.len(),
        0 <= i <= a.len(),
        forall|j: int|
            0 <= j < a.len() ==> (#[trigger] a[j]).0@ == b[j].0@ && json_view(a[j].1) == json_view(
                b[j].1,
            ),
    ensures
        fields_view(a, i) == fields_view(b, i),
    decreases a.len() - i,
{
    if i < a.len() {
        lemma_fields_view_same(a, b, i + 1);
        assert(a[i].0@ == b[i].0@ && json_view(a[i].1) == json_view(b[i].1));
    }
}

/// `serde_json::Value`, the document model JSON text is printed from.
#[verifier::external_type_specification]
#[verifier::external_body]
pub struct ExSerdeJsonValue(serde_json::Value);

/// Converts a document into `serde_json::Value`, value for value (a number
/// whose text is not a JSON number becomes `null`).
#[verifier::external_body]
fn to_serde_value(v: &JsonValue) -> serde_json::Value {
    match v {
        JsonValue::Null => serde_json::Value::Null,
        JsonValue::Bool(b) => serde_json::Value::Bool(*b),
        JsonValue::Number(t) => t.parse::<serde_json::Number>().map(serde_json::Value::Number).unwrap_or(serde_json::Value::Null),
        JsonValue::String(s) => serde_json::Value::String(s.clone()),
        JsonValue::Array(items) => serde_json::Value::Array(items.iter().map(to_serde_value).collect()),
        JsonValue::Object(fields) => serde_json::Value::Object(fields.iter().map(|(k, x)| (k.clone(), to_serde_value(x))).collect()),
    }
}

/// The compact JSON text `serde_json` prints for a document (named, not
/// stated: escaping and number formatting are `serde_json`'s).
pub uninterp spec fn json_text_of(v: JsonView) -> Seq<char>;

/// Calls `serde_json::Value::to_string` on the document. Claims that the
/// text is a function of the document's content, named `json_text_of`.
#[verifier::external_body]
pub(crate) fn json_text(v: &JsonValue) -> (s: String)
    ensures
        s@ == json_text_of(json_view(*v)),
{
    to_serde_value(v).to_string()
}


/// Converts a `serde_json::Value` into a document, value for value (numbers
/// by their text).
#[verifier::external_body]
fn from_serde_value(v: &serde_json::Value) -> JsonValue {
    match v {
        serde_json::Value::Null => JsonValue::Null,
        serde_json::Value::Bool(b) => JsonValue::Bool(*b),
        serde_json::Value::Number(n) => JsonValue::Number(n.to_string()),
        serde_json::Value::String(s) => JsonValue::String(s.clone()),
        serde_json::Value::Array(items) => JsonValue::Array(items.iter().map(from_serde_value).collect()),
        serde_json::Value::Object(fields) => JsonValue::Object(fields.iter().map(|(k, x)| (k.clone(), from_serde_value(x))).collect()),
    }
}

/// The document `serde_json` parses from a text, or `None` when the text is
/// not JSON (named, not stated: the grammar is `serde_json`'s).
pub uninterp spec fn parsed_json_of(text: Seq<char>) -> Option<JsonView>;

/// Calls `serde_json::from_str` into a `serde_json::Value`. Claims that
/// whether the text parses, and the document it gives, are a function of
/// the text, named `parsed_json_of`.
#[verifier::external_body]
pub(crate) fn parse_json(text: &str) -> (r: Option<JsonValue>)
    ensures
        match r {
            Some(v) => parsed_json_of(text@) == Some(json_view(v)),
            None => parsed_json_of(text@) is None,
        },
{
    serde_json::from_str::<serde_json::Value>(text).ok().map(|v| from_serde_value(&v))
}

/// The indented JSON text `serde_json` prints for a document (named, not
/// stated).
pub uninterp spec fn json_pretty_text_of(v: JsonView) -> Seq<char>;

/// Calls `serde_json::to_string_pretty` on the document (which cannot fail
/// for a `serde_json::Value`: its keys are strings). Claims that the text
/// is a function of the document's content, named `json_pretty_text_of`.
#[verifier::external_body]
pub(crate) fn json_pretty_text(v: &JsonValue) -> (s: String)
    ensures
        s@ == json_pretty_text_of(json_view(*v)),
{
    serde_json::to_string_pretty(&to_serde_value(v)).unwrap_or_default()
}

proof fn lemma_items_view_at(a: Seq<JsonValue>, i: int)
    requires
        0 <= i <= a.len(),
    ensures
        items_view(a, i).len() == a.len() - i,
        forall|k: int| i <= k < a.len() ==> #[trigger] items_view(a, i)[k - i] == json_view(a[k]),
    decreases a.len() - i,
{
    if i < a.len() {
        lemma_items_view_at(a, i + 1);
        assert forall|k: int| i <= k < a.len() implies #[trigger] items_view(a, i)[k - i] == json_view(
            a[k],
        ) by {
            if k > i {
                assert(items_view(a, i)[k - i] == items_view(a, i + 1)[k - (i + 1)]);
            }
        }
    }
}

/// The view of each member of `f`, by position.
pub proof fn lemma_fields_view_at(f: Seq<(String, JsonValue)>, i: int)
    requires
        0 <= i <= f.len(),
    ensures
        fields_view(f, i).len() == f.len() - i,
        forall|k: int| i <= k < f.len() ==> #[trigger] fields_view(f, i)[k - i] == (f[k].0@, json_view(f[k].1)),
    decreases f.len() - i,
{
    if i < f.len() {
        lemma_fields_view_at(f, i + 1);
        assert forall|k: int| i <= k < f.len() implies #[trigger] fields_view(f, i)[k - i] == (
        f[k].0@, json_view(f[k].1)) by {
            if k > i {
                assert(fields_view(f, i)[k - i] == fields_view(f, i + 1)[k - (i + 1)]);
            }
        }
    }
}

/// The view of each item of `a`, by position.
pub proof fn lemma_items_index(a: Seq<JsonValue>)
    ensures
        items_view(a, 0).len() == a.len(),
        forall|k: int| 0 <= k < a.len() ==> #[trigger] items_view(a, 0)[k] == json_view(a[k]),
{
    lemma_items_view_at(a, 0);
    assert forall|k: int| 0 <= k < a.len() implies #[trigger] items_view(a, 0)[k] == json_view(a[k]) by {
        assert(items_view(a, 0)[k - 0] == json_view(a[k]));
    }
}

/// The view of each member of `f`, by position.
pub proof fn lemma_fields_index(f: Seq<(String, JsonValue)>)
    ensures
        fields_view(f, 0).len() == f.len(),
        forall|k: int| 0 <= k < f.len() ==> #[trigger] fields_view(f, 0)[k] == (f[k].0@, json_view(f[k].1)),
{
    lemma_fields_view_at(f, 0);
    assert forall|k: int| 0 <= k < f.len() implies #[trigger] fields_view(f, 0)[k] == (f[k].0@, json_view(f[k].1)) by {
        assert(fields_view(f, 0)[k - 0] == (f[k].0@, json_view(f[k].1)));
    }
}

/// Whether two documents have the same content (numbers compared by their
/// text, object members in order).
pub fn json_eq(a: &JsonValue, b: &JsonValue) -> (r: bool)
    ensures
        r == (json_view(*a) == json_view(*b)),
    decreases a,
{
    match (a, b) {
        (JsonValue::Null, JsonValue::Null) => true,
        (JsonValue::Bool(x), JsonValue::Bool(y)) => *x == *y,
        (JsonValue::Number(x), JsonValue::Number(y)) => str_eq_chars(x.as_str(), y.as_str()),
        (JsonValue::String(x), JsonValue::String(y)) => str_eq_chars(x.as_str(), y.as_str()),
        (JsonValue::Array(xs), JsonValue::Array(ys)) => {
            proof {
                lemma_items_index(xs@);
                lemma_items_index(ys@);
            }
            if xs.len() != ys.len() {
                assert(items_view(xs@, 0).len() != items_view(ys@, 0).len());
                return false;
            }
            let mut i: usize = 0;
            while i < xs.len()
                invariant
                    i <= xs.len(),
                    xs.len() == ys.len(),
                    *a == JsonValue::Array(*xs),
                    *b == JsonValue::Array(*ys),
                    forall|k: int| 0 <= k < i ==> json_view(#[trigger] xs@[k]) == json_view(ys@[k]),
                decreases xs.len() - i,
            {
                assert(decreases_to!(*a => (*a)->Array_0));
                assert(decreases_to!(*xs => xs@));
                assert(decreases_to!(xs@ => xs@[i as int]));
                assert(decreases_to!(*a => xs@[i as int]));
                proof {
                    lemma_items_index(xs@);
                    lemma_items_index(ys@);
                }
                if !json_eq(&xs[i], &ys[i]) {
                    assert(items_view(xs@, 0)[i as int] != items_view(ys@, 0)[i as int]);
                    return false;
                }
                i = i + 1;
            }
            assert(items_view(xs@, 0) =~= items_view(ys@, 0));
            true
        },
        (JsonValue::Object(xs), JsonValue::Object(ys)) => {
            proof {
                lemma_fields_index(xs@);
                lemma_fields_index(ys@);
            }
            if xs.len() != ys.len() {
                assert(fields_view(xs@, 0).len() != fields_view(ys@, 0).len());
                return false;
            }
            let mut i: usize = 0;
            while i < xs.len()
                invariant
                    i <= xs.len(),
                    xs.len() == ys.len(),
                    *a == JsonValue::Object(*xs),
                    *b == JsonValue::Object(*ys),
                    forall|k: int|
                        0 <= k < i ==> (#[trigger] xs@[k]).0@ == ys@[k].0@ && json_view(xs@[k].1)
                            == json_view(ys@[k].1),
                decreases xs.len() - i,
            {
                assert(decreases_to!(*a => (*a)->Object_0));
                assert(decreases_to!(*xs => xs@));
                assert(decreases_to!(xs@ => xs@[i as int]));
                assert(decreases_to!(xs@[i as int] => xs@[i as int].1));
                assert(decreases_to!(*a => xs@[i as int].1));
                proof {
                    lemma_fields_index(xs@);
                    lemma_fields_index(ys@);
                }
                if !str_eq_chars(xs[i].0.as_str(), ys[i].0.as_str()) || !json_eq(&xs[i].1, &ys[i].1) {
                    assert(fields_view(xs@, 0)[i as int] != fields_view(ys@, 0)[i as int]);
                    return false;
                }
                i = i + 1;
            }
            assert(fields_view(xs@, 0) =~= fields_view(ys@, 0));
            true
        },
        _ => false,
    }
}

fn str_eq_chars(x: &str, y: &str) -> (r: bool)
    ensures
        r == (x@ == y@),
{
    chars_eq(&chars_of(x), &chars_of(y))
}

} // verus!
