//! JSON Schemas of tool parameters, built as JSON values.
//!
//! Members appear in key order, as in a `serde_json` map.

use vstd::prelude::*;

use crate::json::{
    fields_view, items_view, json_view, lemma_fields_index, lemma_items_index, JsonValue, JsonView,
};
use crate::text::{decimal, u64_decimal};

verus! {

/// The JSON number `n`.
pub open spec fn num(n: nat) -> JsonView {
    JsonView::Number(decimal(n))
}

/// A property of type `ty` described as `d`.
pub open spec fn typed_prop(ty: Seq<char>, d: Seq<char>) -> JsonView {
    JsonView::Object(seq![("description"@, JsonView::Str(d)), ("type"@, JsonView::Str(ty))])
}

/// An integer property described as `d`, with a default and bounds.
pub open spec fn int_prop(d: Seq<char>, default: nat, min: nat, max: nat) -> JsonView {
    JsonView::Object(
        seq![
            ("default"@, num(default)),
            ("description"@, JsonView::Str(d)),
            ("maximum"@, num(max)),
            ("minimum"@, num(min)),
            ("type"@, JsonView::Str("integer"@)),
        ],
    )
}

/// A boolean property described as `d`, with a default.
pub open spec fn bool_prop(d: Seq<char>, default: bool) -> JsonView {
    JsonView::Object(
        seq![
            ("default"@, JsonView::Bool(default)),
            ("description"@, JsonView::Str(d)),
            ("type"@, JsonView::Str("boolean"@)),
        ],
    )
}

/// The strings `names` as a JSON array.
pub open spec fn str_array(names: Seq<Seq<char>>) -> JsonView {
    JsonView::Array(names.map_values(|n: Seq<char>| JsonView::Str(n)))
}

/// The schema of an object with the properties `props`, of which
/// `required` are required (no `required` member when none is).
pub open spec fn object_schema(props: Seq<(Seq<char>, JsonView)>, required: Seq<Seq<char>>) -> JsonView {
    if required.len() == 0 {
        JsonView::Object(
            seq![("properties"@, JsonView::Object(props)), ("type"@, JsonView::Str("object"@))],
        )
    } else {
        JsonView::Object(
            seq![
                ("properties"@, JsonView::Object(props)),
                ("required"@, str_array(required)),
                ("type"@, JsonView::Str("object"@)),
            ],
        )
    }
}

/// The content of named members.
pub open spec fn props_view(props: Seq<(String, JsonValue)>) -> Seq<(Seq<char>, JsonView)> {
    props.map_values(|p: (String, JsonValue)| (p.0@, json_view(p.1)))
}

/// The JSON number `n`.
pub fn number(n: u64) -> (v: JsonValue)
    ensures
        json_view(v) == num(n as nat),
{
    JsonValue::Number(u64_decimal(n))
}

/// A member `name: value`.
pub fn member(name: &str, value: JsonValue) -> (m: (String, JsonValue))
    ensures
        m.0@ == name@,
        m.1 == value,
{
    (name.to_string(), value)
}

/// An object with the members `fields`, in order.
pub fn object(fields: Vec<(String, JsonValue)>) -> (v: JsonValue)
    ensures
        json_view(v) == JsonView::Object(props_view(fields@)),
{
    proof {
        lemma_fields_index(fields@);
        assert(fields_view(fields@, 0) =~= props_view(fields@));
    }
    JsonValue::Object(fields)
}

/// A property of type `ty` described as `d`.
pub fn typed_property(ty: &str, d: &str) -> (v: JsonValue)
    ensures
        json_view(v) == typed_prop(ty@, d@),
{
    let f = vec![member("description", JsonValue::String(d.to_string())), member("type", JsonValue::String(ty.to_string()))];
    let v = object(f);
    assert(props_view(f@) =~= seq![("description"@, JsonView::Str(d@)), ("type"@, JsonView::Str(ty@))]);
    v
}

/// An integer property described as `d`, with a default and bounds.
pub fn integer_property(d: &str, default: u64, min: u64, max: u64) -> (v: JsonValue)
    ensures
        json_view(v) == int_prop(d@, default as nat, min as nat, max as nat),
{
    let f = vec![
        member("default", number(default)),
        member("description", JsonValue::String(d.to_string())),
        member("maximum", number(max)),
        member("minimum", number(min)),
        member("type", JsonValue::String("integer".to_string())),
    ];
    let v = object(f);
    assert(props_view(f@) =~= seq![
        ("default"@, num(default as nat)),
        ("description"@, JsonView::Str(d@)),
        ("maximum"@, num(max as nat)),
        ("minimum"@, num(min as nat)),
        ("type"@, JsonView::Str("integer"@)),
    ]);
    v
}

/// A boolean property described as `d`, with a default.
pub fn boolean_property(d: &str, default: bool) -> (v: JsonValue)
    ensures
        json_view(v) == bool_prop(d@, default),
{
    let f = vec![
        member("default", JsonValue::Bool(default)),
        member("description", JsonValue::String(d.to_string())),
        member("type", JsonValue::String("boolean".to_string())),
    ];
    let v = object(f);
    assert(props_view(f@) =~= seq![
        ("default"@, JsonView::Bool(default)),
        ("description"@, JsonView::Str(d@)),
        ("type"@, JsonView::Str("boolean"@)),
    ]);
    v
}

/// The strings `names` as a JSON array.
pub fn string_array(names: &[&str]) -> (v: JsonValue)
    ensures
        json_view(v) == str_array(names@.map_values(|n: &str| n@)),
{
    let mut items: Vec<JsonValue> = Vec::new();
    let mut i: usize = 0;
    while i < names.len()
        invariant
            i <= names.len(),
            items@.len() == i,
            forall|k: int| 0 <= k < i ==> json_view(#[trigger] items@[k]) == JsonView::Str(names@[k]@),
        decreases names.len() - i,
    {
        items.push(JsonValue::String(names[i].to_string()));
        i = i + 1;
    }
    proof {
        lemma_items_index(items@);
        assert(items_view(items@, 0) =~= names@.map_values(|n: &str| n@).map_values(
            |n: Seq<char>| JsonView::Str(n),
        ));
    }
    JsonValue::Array(items)
}

/// The schema of an object with the properties `props`, of which
/// `required` are required.
pub fn object_schema_of(props: Vec<(String, JsonValue)>, required: &[&str]) -> (v: JsonValue)
    ensures
        json_view(v) == object_schema(props_view(props@), required@.map_values(|n: &str| n@)),
{
    let p = object(props);
    let t = JsonValue::String("object".to_string());
    if required.len() == 0 {
        let f = vec![member("properties", p), member("type", t)];
        let v = object(f);
        assert(props_view(f@) =~= seq![
            ("properties"@, JsonView::Object(props_view(props@))),
            ("type"@, JsonView::Str("object"@)),
        ]);
        v
    } else {
        let r = string_array(required);
        let f = vec![member("properties", p), member("required", r), member("type", t)];
        let v = object(f);
        assert(props_view(f@) =~= seq![
            ("properties"@, JsonView::Object(props_view(props@))),
            ("required"@, str_array(required@.map_values(|n: &str| n@))),
            ("type"@, JsonView::Str("object"@)),
        ]);
        v
    }
}

/// An array of the items `items`, in order.
pub fn array(items: Vec<JsonValue>) -> (v: JsonValue)
    ensures
        json_view(v) == JsonView::Array(items@.map_values(|x: JsonValue| json_view(x))),
{
    proof {
        lemma_items_index(items@);
        assert(items_view(items@, 0) =~= items@.map_values(|x: JsonValue| json_view(x)));
    }
    JsonValue::Array(items)
}

/// A string property restricted to `choices`.
pub open spec fn enum_prop(d: Seq<char>, choices: Seq<Seq<char>>) -> JsonView {
    JsonView::Object(
        seq![
            ("description"@, JsonView::Str(d)),
            ("enum"@, str_array(choices)),
            ("type"@, JsonView::Str("string"@)),
        ],
    )
}

/// A string property restricted to `choices`, described as `d`.
pub fn enum_property(d: &str, choices: &[&str]) -> (v: JsonValue)
    ensures
        json_view(v) == enum_prop(d@, choices@.map_values(|n: &str| n@)),
{
    let f = vec![
        member("description", JsonValue::String(d.to_string())),
        member("enum", string_array(choices)),
        member("type", JsonValue::String("string".to_string())),
    ];
    let v = object(f);
    assert(props_view(f@) =~= seq![
        ("description"@, JsonView::Str(d@)),
        ("enum"@, str_array(choices@.map_values(|n: &str| n@))),
        ("type"@, JsonView::Str("string"@)),
    ]);
    v
}

/// A string property restricted to `choices`, with a default.
pub open spec fn enum_default_prop(d: Seq<char>, choices: Seq<Seq<char>>, default: Seq<char>) -> JsonView {
    JsonView::Object(
        seq![
            ("default"@, JsonView::Str(default)),
            ("description"@, JsonView::Str(d)),
            ("enum"@, str_array(choices)),
            ("type"@, JsonView::Str("string"@)),
        ],
    )
}

/// A string property restricted to `choices`, described as `d`, with a
/// default.
pub fn enum_default_property(d: &str, choices: &[&str], default: &str) -> (v: JsonValue)
    ensures
        json_view(v) == enum_default_prop(d@, choices@.map_values(|n: &str| n@), default@),
{
    let f = vec![
        member("default", JsonValue::String(default.to_string())),
        member("description", JsonValue::String(d.to_string())),
        member("enum", string_array(choices)),
        member("type", JsonValue::String("string".to_string())),
    ];
    let v = object(f);
    assert(props_view(f@) =~= seq![
        ("default"@, JsonView::Str(default@)),
        ("description"@, JsonView::Str(d@)),
        ("enum"@, str_array(choices@.map_values(|n: &str| n@))),
        ("type"@, JsonView::Str("string"@)),
    ]);
    v
}

/// A property of any type, described as `d`.
pub open spec fn untyped_prop(d: Seq<char>) -> JsonView {
    JsonView::Object(seq![("description"@, JsonView::Str(d))])
}

/// A property of any type, described as `d`.
pub fn untyped_property(d: &str) -> (v: JsonValue)
    ensures
        json_view(v) == untyped_prop(d@),
{
    let f = vec![member("description", JsonValue::String(d.to_string()))];
    let v = object(f);
    assert(props_view(f@) =~= seq![("description"@, JsonView::Str(d@))]);
    v
}

/// An object property whose members are strings, described as `d`.
pub open spec fn string_map_prop(d: Seq<char>) -> JsonView {
    JsonView::Object(
        seq![
            ("additionalProperties"@, JsonView::Object(seq![("type"@, JsonView::Str("string"@))])),
            ("description"@, JsonView::Str(d)),
            ("type"@, JsonView::Str("object"@)),
        ],
    )
}

/// An object property whose members are strings, described as `d`.
pub fn string_map_property(d: &str) -> (v: JsonValue)
    ensures
        json_view(v) == string_map_prop(d@),
{
    let fi = vec![member("type", JsonValue::String("string".to_string()))];
    let inner = object(fi);
    assert(props_view(fi@) =~= seq![("type"@, JsonView::Str("string"@))]);
    let ghost iv = json_view(inner);
    let f = vec![
        member("additionalProperties", inner),
        member("description", JsonValue::String(d.to_string())),
        member("type", JsonValue::String("object".to_string())),
    ];
    let v = object(f);
    assert(props_view(f@) =~= seq![
        ("additionalProperties"@, iv),
        ("description"@, JsonView::Str(d@)),
        ("type"@, JsonView::Str("object"@)),
    ]);
    v
}

} // verus!
