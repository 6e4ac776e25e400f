//! Generalizing several successful runs of the same tool chain into one
//! parameterized, quarantined skill.
//!
//! Argument fields identical across all runs stay fixed; fields that vary
//! become declared parameters (the newest run's value is kept as the
//! example). A single-step chain becomes a `Delegate` whose fixed arguments
//! keep only the uniform fields (call arguments override fixed ones); a
//! multi-step chain becomes a `Sequence` with `{param}` placeholders.

use vstd::prelude::*;

use crate::install_policy::{char_utf8_width, utf8_len};
use crate::json::{
    fields_view, json_clone, json_eq, json_get, json_text, json_text_of, json_view,
    lemma_fields_index, JsonValue, JsonView,
};
use crate::skill::{SkillKind, SkillManifest, SkillStep};
use crate::synthesis::{chain_signature, slugify, spec_chain_signature, spec_slugify, Episode, Outcome};
use crate::text::{chars_eq, chars_less, chars_of, decimal, extend_str, push_decimal, seq_less, string_of, trim, trimmed};
use crate::track0::RolloutStage;

verus! {

broadcast use vstd::string::group_string_axioms;

// ── Which runs, which example ────────────────────────────────────────────────

/// The index of the newest run among `eps[..n]` (the last one with the
/// greatest timestamp).
pub open spec fn newest_index(eps: Seq<&Episode>, n: int) -> int
    decreases n,
{
    if n <= 1 {
        0
    } else {
        let b = newest_index(eps, n - 1);
        if eps[n - 1].ts_ms >= eps[b].ts_ms {
            n - 1
        } else {
            b
        }
    }
}

/// The index of the run with the shortest trimmed objective (in bytes)
/// among `eps[..n]`, the first one on a tie.
pub open spec fn generic_index(eps: Seq<&Episode>, n: int) -> int
    decreases n,
{
    if n <= 1 {
        0
    } else {
        let b = generic_index(eps, n - 1);
        if utf8_len(trim(eps[n - 1].objective@)) < utf8_len(trim(eps[b].objective@)) {
            n - 1
        } else {
            b
        }
    }
}

pub open spec fn newest(eps: Seq<&Episode>) -> Episode {
    *eps[newest_index(eps, eps.len() as int)]
}

pub open spec fn all_steps_ok(e: Episode) -> bool {
    forall|j: int| 0 <= j < e.steps@.len() ==> (#[trigger] e.steps@[j]).ok
}

/// The runs can be generalized: at least two, all successful with every
/// step successful, all with the same non-empty tool chain.
pub open spec fn group_ok(eps: Seq<&Episode>) -> bool {
    let sig = spec_chain_signature(newest(eps));
    &&& eps.len() >= 2
    &&& sig.len() > 0
    &&& forall|k: int|
        0 <= k < eps.len() ==> (#[trigger] eps[k]).outcome == Outcome::Success && all_steps_ok(*eps[k])
            && spec_chain_signature(*eps[k]) == sig
}

// ── Templates and parameters ─────────────────────────────────────────────────

/// The members of an object (none for other values).
pub open spec fn obj_fields(v: JsonValue) -> Seq<(String, JsonValue)> {
    match v {
        JsonValue::Object(f) => f@,
        _ => seq![],
    }
}

/// The content of argument `key` of step `i` of run `e`, if it has one.
pub open spec fn value_at(e: Episode, i: int, key: Seq<char>) -> Option<JsonView> {
    if 0 <= i < e.steps@.len() {
        match json_get(e.steps@[i].args, key) {
            Some(x) => Some(json_view(x)),
            None => None,
        }
    } else {
        None
    }
}

/// Argument `key` of step `i` has content `v` in every run.
pub open spec fn uniform(eps: Seq<&Episode>, i: int, key: Seq<char>, v: JsonView) -> bool {
    forall|k: int| 0 <= k < eps.len() ==> #[trigger] value_at(*eps[k], i, key) == Some(v)
}

/// The `{key}` placeholder.
pub open spec fn placeholder(key: Seq<char>) -> Seq<char> {
    seq!['{'] + key + seq!['}']
}

/// The template of the members `f` of step `i`: uniform values kept, the
/// others replaced by their placeholder.
pub open spec fn template_fields(eps: Seq<&Episode>, i: int, f: Seq<(String, JsonValue)>) -> Seq<
    (Seq<char>, JsonView),
> {
    Seq::new(
        f.len(),
        |j: int|
            (
                f[j].0@,
                if uniform(eps, i, f[j].0@, json_view(f[j].1)) {
                    json_view(f[j].1)
                } else {
                    JsonView::Str(placeholder(f[j].0@))
                },
            ),
    )
}

/// `s` (kept sorted by key, keys unique) with `k` set to `v`: replaced
/// where `k` is present, else inserted before the first greater key.
pub open spec fn sorted_insert(s: Seq<(Seq<char>, JsonView)>, k: Seq<char>, v: JsonView) -> Seq<
    (Seq<char>, JsonView),
>
    decreases s.len(),
{
    if s.len() == 0 {
        seq![(k, v)]
    } else if s[0].0 == k {
        seq![(k, v)] + s.drop_first()
    } else if seq_less(k, s[0].0) {
        seq![(k, v)] + s
    } else {
        seq![s[0]] + sorted_insert(s.drop_first(), k, v)
    }
}

/// `acc` after the varying members among `f[..n]` of step `i` are recorded.
pub open spec fn params_fields(
    eps: Seq<&Episode>,
    acc: Seq<(Seq<char>, JsonView)>,
    i: int,
    f: Seq<(String, JsonValue)>,
    n: int,
) -> Seq<(Seq<char>, JsonView)>
    decreases n,
{
    if n <= 0 || n > f.len() {
        acc
    } else {
        let a = params_fields(eps, acc, i, f, n - 1);
        if uniform(eps, i, f[n - 1].0@, json_view(f[n - 1].1)) {
            a
        } else {
            sorted_insert(a, f[n - 1].0@, json_view(f[n - 1].1))
        }
    }
}

/// The parameters found in the first `n` steps of `steps` (the newest run).
pub open spec fn params_steps(eps: Seq<&Episode>, steps: Seq<crate::synthesis::EpisodeStep>, n: int) -> Seq<
    (Seq<char>, JsonView),
>
    decreases n,
{
    if n <= 0 || n > steps.len() {
        seq![]
    } else {
        let f = obj_fields(steps[n - 1].args);
        params_fields(eps, params_steps(eps, steps, n - 1), n - 1, f, f.len() as int)
    }
}

/// The parameters of the group, sorted by name: each varying argument with
/// the newest run's value as its example.
pub open spec fn group_params(eps: Seq<&Episode>) -> Seq<(Seq<char>, JsonView)> {
    let s = newest(eps).steps@;
    params_steps(eps, s, s.len() as int)
}

/// The JSON Schema type name of an example value.
pub open spec fn schema_type_name(v: JsonView) -> Seq<char> {
    match v {
        JsonView::Str(_) => "string"@,
        JsonView::Number(_) => "number"@,
        JsonView::Bool(_) => "boolean"@,
        JsonView::Array(_) => "array"@,
        JsonView::Object(_) => "object"@,
        JsonView::Null => "string"@,
    }
}

/// The JSON Schema of the parameters: each one typed after its example and
/// described by it, all of them required.
pub open spec fn parameters_view(p: Seq<(Seq<char>, JsonView)>) -> JsonView {
    JsonView::Object(
        seq![
            (
                "properties"@,
                JsonView::Object(
                    p.map_values(
                        |e: (Seq<char>, JsonView)|
                            (
                                e.0,
                                JsonView::Object(
                                    seq![
                                        ("description"@, JsonView::Str("e.g. "@ + json_text_of(e.1))),
                                        ("type"@, JsonView::Str(schema_type_name(e.1))),
                                    ],
                                ),
                            ),
                    ),
                ),
            ),
            ("required"@, JsonView::Array(p.map_values(|e: (Seq<char>, JsonView)| JsonView::Str(e.0)))),
            ("type"@, JsonView::Str("object"@)),
        ],
    )
}

/// Whether `k` names a parameter.
pub open spec fn is_param(p: Seq<(Seq<char>, JsonView)>, k: Seq<char>) -> bool {
    exists|q: int| 0 <= q < p.len() && (#[trigger] p[q]).0 == k
}

/// The members of `t[..n]` that are not parameters.
pub open spec fn without_params(t: Seq<(Seq<char>, JsonView)>, p: Seq<(Seq<char>, JsonView)>, n: int) -> Seq<
    (Seq<char>, JsonView),
>
    decreases n,
{
    if n <= 0 || n > t.len() {
        seq![]
    } else if is_param(p, t[n - 1].0) {
        without_params(t, p, n - 1)
    } else {
        without_params(t, p, n - 1).push(t[n - 1])
    }
}

/// The recipe of the generalized skill: whether it is a sequence, and its
/// (tool, argument template) steps.
pub open spec fn group_recipe(eps: Seq<&Episode>) -> (bool, Seq<(Seq<char>, JsonView)>) {
    let s = newest(eps).steps@;
    let p = group_params(eps);
    if s.len() == 1 {
        let t = template_fields(eps, 0, obj_fields(s[0].args));
        (false, seq![(s[0].tool@, JsonView::Object(without_params(t, p, t.len() as int)))])
    } else {
        (
            true,
            Seq::new(
                s.len(),
                |i: int| (s[i].tool@, JsonView::Object(template_fields(eps, i, obj_fields(s[i].args)))),
            ),
        )
    }
}

/// Parameter names joined with `, `.
pub open spec fn param_names(p: Seq<(Seq<char>, JsonView)>) -> Seq<char> {
    crate::synthesis::join_with(p.map_values(|e: (Seq<char>, JsonView)| e.0), ", "@)
}

// ── Executable parts ─────────────────────────────────────────────────────────

fn newest_of(eps: &[&Episode]) -> (r: usize)
    requires
        eps@.len() >= 1,
    ensures
        r == newest_index(eps@, eps@.len() as int),
        r < eps@.len(),
{
    let mut best: usize = 0;
    let mut i: usize = 1;
    while i < eps.len()
        invariant
            1 <= i <= eps.len(),
            best < i,
            best == newest_index(eps@, i as int),
        decreases eps.len() - i,
    {
        if eps[i].ts_ms >= eps[best].ts_ms {
            best = i;
        }
        i = i + 1;
    }
    best
}

fn byte_len(s: &[char]) -> (n: u128)
    ensures
        n == utf8_len(s@),
{
    let mut n: u128 = 0;
    let mut i: usize = 0;
    while i < s.len()
        invariant
            i <= s.len(),
            n == utf8_len(s@.take(i as int)),
            n <= 4 * i,
        decreases s.len() - i,
    {
        assert(s@.take(i + 1).drop_last() == s@.take(i as int));
        n = n + char_utf8_width(s[i]) as u128;
        i = i + 1;
    }
    assert(s@.take(s@.len() as int) == s@);
    n
}

fn generic_of(eps: &[&Episode]) -> (r: usize)
    requires
        eps@.len() >= 1,
    ensures
        r == generic_index(eps@, eps@.len() as int),
        r < eps@.len(),
{
    let mut best: usize = 0;
    let mut best_len = byte_len(&trimmed(&chars_of(eps[0].objective.as_str())));
    let mut i: usize = 1;
    while i < eps.len()
        invariant
            1 <= i <= eps.len(),
            best < i,
            best == generic_index(eps@, i as int),
            best_len == utf8_len(trim(eps@[best as int].objective@)),
        decreases eps.len() - i,
    {
        let t = trimmed(&chars_of(eps[i].objective.as_str()));
        let l = byte_len(&t);
        if l < best_len {
            best = i;
            best_len = l;
        }
        i = i + 1;
    }
    best
}

fn steps_all_ok(e: &Episode) -> (b: bool)
    ensures
        b == all_steps_ok(*e),
{
    let mut j: usize = 0;
    while j < e.steps.len()
        invariant
            j <= e.steps.len(),
            forall|q: int| 0 <= q < j ==> (#[trigger] e.steps@[q]).ok,
        decreases e.steps.len() - j,
    {
        if !e.steps[j].ok {
            return false;
        }
        j = j + 1;
    }
    true
}

fn group_valid(eps: &[&Episode], sig: &String) -> (b: bool)
    ensures
        b == (forall|k: int|
            0 <= k < eps@.len() ==> (#[trigger] eps@[k]).outcome == Outcome::Success && all_steps_ok(
                *eps@[k],
            ) && spec_chain_signature(*eps@[k]) == sig@),
{
    let s = chars_of(sig.as_str());
    let mut k: usize = 0;
    while k < eps.len()
        invariant
            k <= eps.len(),
            s@ == sig@,
            forall|q: int|
                0 <= q < k ==> (#[trigger] eps@[q]).outcome == Outcome::Success && all_steps_ok(*eps@[q])
                    && spec_chain_signature(*eps@[q]) == sig@,
        decreases eps.len() - k,
    {
        let e = eps[k];
        if e.outcome != Outcome::Success || !steps_all_ok(e) || !chars_eq(
            &chars_of(chain_signature(e).as_str()),
            &s,
        ) {
            return false;
        }
        k = k + 1;
    }
    true
}

fn value_matches(e: &Episode, i: usize, key: &str, v: &JsonValue) -> (b: bool)
    ensures
        b == (value_at(*e, i as int, key@) == Some(json_view(*v))),
{
    if i >= e.steps.len() {
        return false;
    }
    match e.steps[i].args.get(key) {
        Some(x) => json_eq(x, v),
        None => false,
    }
}

fn is_uniform(eps: &[&Episode], i: usize, key: &str, v: &JsonValue) -> (b: bool)
    ensures
        b == uniform(eps@, i as int, key@, json_view(*v)),
{
    let mut k: usize = 0;
    while k < eps.len()
        invariant
            k <= eps.len(),
            forall|q: int| 0 <= q < k ==> #[trigger] value_at(*eps@[q], i as int, key@) == Some(json_view(*v)),
        decreases eps.len() - k,
    {
        if !value_matches(eps[k], i, key, v) {
            return false;
        }
        k = k + 1;
    }
    true
}

pub open spec fn entries_view(p: Seq<(String, JsonValue)>) -> Seq<(Seq<char>, JsonView)> {
    p.map_values(|e: (String, JsonValue)| (e.0@, json_view(e.1)))
}

fn sorted_insert_exec(p: &mut Vec<(String, JsonValue)>, k: String, v: JsonValue)
    ensures
        entries_view(final(p)@) == sorted_insert(entries_view(old(p)@), k@, json_view(v)),
{
    let kc = chars_of(k.as_str());
    let mut i: usize = 0;
    let ghost s0 = entries_view(p@);
    assert(s0.skip(0) == s0);
    assert(s0.take(0) + sorted_insert(s0, k@, json_view(v)) == sorted_insert(s0, k@, json_view(v)));
    while i < p.len()
        invariant
            i <= p.len(),
            p@ == old(p)@,
            kc@ == k@,
            s0 == entries_view(old(p)@),
            forall|q: int| 0 <= q < i ==> entries_view(p@)[q].0 != k@ && !seq_less(k@, entries_view(p@)[q].0),
            sorted_insert(s0, k@, json_view(v)) == s0.take(i as int) + sorted_insert(s0.skip(i as int), k@, json_view(v)),
        decreases p.len() - i,
    {
        let pc = chars_of(p[i].0.as_str());
        let ghost rest = s0.skip(i as int);
        assert(rest[0] == s0[i as int]);
        if chars_eq(&pc, &kc) {
            let ghost before = p@;
            p.set(i, (k, v));
            assert(entries_view(p@) =~= s0.take(i as int) + (seq![(k@, json_view(v))] + rest.drop_first()));
            return;
        }
        if chars_less(&kc, &pc) {
            p.insert(i, (k, v));
            assert(entries_view(p@) =~= s0.take(i as int) + (seq![(k@, json_view(v))] + rest));
            return;
        }
        assert(rest.drop_first() == s0.skip(i + 1));
        assert(s0.take(i as int) + (seq![rest[0]] + sorted_insert(rest.drop_first(), k@, json_view(v)))
            == s0.take(i + 1) + sorted_insert(s0.skip(i + 1), k@, json_view(v)));
        i = i + 1;
    }
    p.push((k, v));
    assert(s0.skip(i as int).len() == 0);
    assert(entries_view(p@) =~= s0.take(i as int) + seq![(k@, json_view(v))]);
}

/// One step's template members, with its varying members recorded in
/// `params`.
fn step_template(eps: &[&Episode], i: usize, args: &JsonValue, params: &mut Vec<(String, JsonValue)>) -> (t: Vec<
    (String, JsonValue),
>)
    ensures
        entries_view(t@) == template_fields(eps@, i as int, obj_fields(*args)),
        entries_view(final(params)@) == params_fields(
            eps@,
            entries_view(old(params)@),
            i as int,
            obj_fields(*args),
            obj_fields(*args).len() as int,
        ),
{
    let mut t: Vec<(String, JsonValue)> = Vec::new();
    match args {
        JsonValue::Object(fields) => {
            proof {
                lemma_fields_index(fields@);
            }
            let ghost f = fields@;
            let mut j: usize = 0;
            while j < fields.len()
                invariant
                    j <= fields.len(),
                    f == fields@,
                    *args == JsonValue::Object(*fields),
                    entries_view(t@) == template_fields(eps@, i as int, f).take(j as int),
                    entries_view(params@) == params_fields(eps@, entries_view(old(params)@), i as int, f, j as int),
                decreases fields.len() - j,
            {
                let key = &fields[j].0;
                let val = &fields[j].1;
                let u = is_uniform(eps, i, key.as_str(), val);
                let ghost tf = template_fields(eps@, i as int, f);
                let ghost before = entries_view(t@);
                if u {
                    t.push((key.clone(), json_clone(val)));
                    assert(tf[j as int] == (key@, json_view(*val)));
                    assert(entries_view(t@) =~= before.push((key@, json_view(*val))));
                } else {
                    sorted_insert_exec(params, key.clone(), json_clone(val));
                    let mut ph = vec!['{'];
                    extend_str(&mut ph, key.as_str());
                    ph.push('}');
                    assert(ph@ == placeholder(key@));
                    t.push((key.clone(), JsonValue::String(string_of(&ph))));
                    assert(tf[j as int] == (key@, JsonView::Str(placeholder(key@))));
                    assert(entries_view(t@) =~= before.push((key@, JsonView::Str(placeholder(key@)))));
                }
                assert(entries_view(t@) =~= tf.take(j + 1));
                j = j + 1;
            }
            assert(template_fields(eps@, i as int, f).take(f.len() as int) =~= template_fields(eps@, i as int, f));
        },
        _ => {
            assert(entries_view(t@) =~= template_fields(eps@, i as int, obj_fields(*args)));
        },
    }
    t
}


proof fn lemma_fields_view_entries(v: Seq<(String, JsonValue)>)
    ensures
        fields_view(v, 0) == entries_view(v),
{
    lemma_fields_index(v);
    assert(fields_view(v, 0) =~= entries_view(v));
}

fn schema_type_name_of(v: &JsonValue) -> (s: String)
    ensures
        s@ == schema_type_name(json_view(*v)),
{
    match v {
        JsonValue::String(_) => "string".to_string(),
        JsonValue::Number(_) => "number".to_string(),
        JsonValue::Bool(_) => "boolean".to_string(),
        JsonValue::Array(_) => "array".to_string(),
        JsonValue::Object(_) => "object".to_string(),
        JsonValue::Null => "string".to_string(),
    }
}

/// The JSON Schema of the parameters (see [`parameters_view`]).
fn build_parameters(params: &Vec<(String, JsonValue)>) -> (v: JsonValue)
    ensures
        json_view(v) == parameters_view(entries_view(params@)),
{
    let ghost pv = entries_view(params@);
    let mut props: Vec<(String, JsonValue)> = Vec::new();
    let mut required: Vec<JsonValue> = Vec::new();
    let mut i: usize = 0;
    while i < params.len()
        invariant
            i <= params.len(),
            pv == entries_view(params@),
            props@.len() == i,
            required@.len() == i,
            forall|q: int|
                0 <= q < i ==> (#[trigger] props@[q]).0@ == pv[q].0 && json_view(props@[q].1) == JsonView::Object(
                    seq![
                        ("description"@, JsonView::Str("e.g. "@ + json_text_of(pv[q].1))),
                        ("type"@, JsonView::Str(schema_type_name(pv[q].1))),
                    ],
                ),
            forall|q: int| 0 <= q < i ==> json_view(#[trigger] required@[q]) == JsonView::Str(pv[q].0),
        decreases params.len() - i,
    {
        let (k, ex) = (&params[i].0, &params[i].1);
        let mut d = chars_of("e.g. ");
        extend_str(&mut d, json_text(ex).as_str());
        let inner = vec![
            ("description".to_string(), JsonValue::String(string_of(&d))),
            ("type".to_string(), JsonValue::String(schema_type_name_of(ex))),
        ];
        proof {
            lemma_fields_view_entries(inner@);
            assert(entries_view(inner@) =~= seq![
                ("description"@, JsonView::Str("e.g. "@ + json_text_of(pv[i as int].1))),
                ("type"@, JsonView::Str(schema_type_name(pv[i as int].1))),
            ]);
        }
        props.push((k.clone(), JsonValue::Object(inner)));
        required.push(JsonValue::String(k.clone()));
        i = i + 1;
    }
    proof {
        lemma_fields_view_entries(props@);
        crate::json::lemma_items_index(required@);
    }
    let ghost pr = fields_view(props@, 0);
    let ghost rq = crate::json::items_view(required@, 0);
    let outer = vec![
        ("properties".to_string(), JsonValue::Object(props)),
        ("required".to_string(), JsonValue::Array(required)),
        ("type".to_string(), JsonValue::String("object".to_string())),
    ];
    proof {
        lemma_fields_view_entries(outer@);
        assert(pr =~= pv.map_values(
            |e: (Seq<char>, JsonView)|
                (
                    e.0,
                    JsonView::Object(
                        seq![
                            ("description"@, JsonView::Str("e.g. "@ + json_text_of(e.1))),
                            ("type"@, JsonView::Str(schema_type_name(e.1))),
                        ],
                    ),
                ),
        ));
        assert(rq =~= pv.map_values(|e: (Seq<char>, JsonView)| JsonView::Str(e.0)));
        assert(entries_view(outer@) =~= seq![
            ("properties"@, JsonView::Object(pr)),
            ("required"@, JsonView::Array(rq)),
            ("type"@, JsonView::Str("object"@)),
        ]);
    }
    JsonValue::Object(outer)
}

fn is_param_exec(params: &Vec<(String, JsonValue)>, k: &str) -> (b: bool)
    ensures
        b == is_param(entries_view(params@), k@),
{
    let kc = chars_of(k);
    let mut q: usize = 0;
    while q < params.len()
        invariant
            q <= params.len(),
            kc@ == k@,
            forall|w: int| 0 <= w < q ==> (#[trigger] entries_view(params@)[w]).0 != k@,
        decreases params.len() - q,
    {
        if chars_eq(&chars_of(params[q].0.as_str()), &kc) {
            assert(entries_view(params@)[q as int].0 == k@);
            return true;
        }
        q = q + 1;
    }
    false
}

fn without_params_exec(t: Vec<(String, JsonValue)>, params: &Vec<(String, JsonValue)>) -> (r: Vec<
    (String, JsonValue),
>)
    ensures
        entries_view(r@) == without_params(entries_view(t@), entries_view(params@), t@.len() as int),
{
    let ghost tv = entries_view(t@);
    let mut r: Vec<(String, JsonValue)> = Vec::new();
    let mut i: usize = 0;
    while i < t.len()
        invariant
            i <= t.len(),
            tv == entries_view(t@),
            entries_view(r@) == without_params(tv, entries_view(params@), i as int),
        decreases t.len() - i,
    {
        if !is_param_exec(params, t[i].0.as_str()) {
            let ghost before = entries_view(r@);
            r.push((t[i].0.clone(), json_clone(&t[i].1)));
            assert(entries_view(r@) =~= before.push(tv[i as int]));
        }
        i = i + 1;
    }
    r
}

fn join_names(params: &Vec<(String, JsonValue)>) -> (s: Vec<char>)
    ensures
        s@ == param_names(entries_view(params@)),
{
    let ghost names = entries_view(params@).map_values(|e: (Seq<char>, JsonView)| e.0);
    let mut out: Vec<char> = Vec::new();
    let mut i: usize = 0;
    while i < params.len()
        invariant
            i <= params.len(),
            names == entries_view(params@).map_values(|e: (Seq<char>, JsonView)| e.0),
            out@ == crate::synthesis::join_with(names.take(i as int), ", "@),
        decreases params.len() - i,
    {
        assert(names.take(i + 1).drop_last() == names.take(i as int));
        if i > 0 {
            extend_str(&mut out, ", ");
        }
        extend_str(&mut out, params[i].0.as_str());
        i = i + 1;
    }
    assert(names.take(params@.len() as int) == names);
    out
}

/// Whether the runs `eps` generalize into one skill: they form a group and
/// some argument varies.
pub open spec fn generalizes(eps: Seq<&Episode>) -> bool {
    group_ok(eps) && group_params(eps).len() > 0
}

/// `m` is the skill generalized from `eps`: named after the shortest
/// objective, its recipe the shared chain with the varying arguments as
/// typed `{placeholders}`, its parameters their schema, disabled, at the
/// `simulate` stage.
pub open spec fn group_skill(m: SkillManifest, eps: Seq<&Episode>) -> bool {
    let p = group_params(eps);
    let generic = trim(eps[generic_index(eps, eps.len() as int)].objective@);
    &&& m.name@ == "learned_"@ + spec_slugify(generic)
    &&& m.description@ == "Learned from "@ + decimal(eps.len()) + " successful runs like: "@
        + generic + " (parameters: "@ + param_names(p) + ")"@
    &&& crate::synthesis::kind_recipe(m.kind) == Some(group_recipe(eps))
    &&& json_view(m.parameters) == parameters_view(p)
    &&& m.version matches Some(v) && v@ == "0.1.0-learned"@
    &&& m.stage == RolloutStage::Simulate
    &&& m.tags@.len() == 2 && m.tags@[0]@ == "learned"@ && m.tags@[1]@ == "parameterized"@
    &&& !m.enabled
    &&& m.timeout_secs == 60
}

/// Generalizes at least two successful runs with the same tool chain into
/// one parameterized, quarantined skill (see the module documentation).
/// `None` unless all runs succeeded with an identical, fully successful,
/// non-empty chain, and unless some argument varies. The skill is named
/// after the shortest objective (the most generic phrasing of the task).
pub fn parameterize(eps: &[&Episode]) -> (r: Option<SkillManifest>)
    ensures
        match r {
            None => !generalizes(eps@),
            Some(m) => generalizes(eps@) && group_skill(m, eps@),
        },
{
    if eps.len() < 2 {
        return None;
    }
    let ni = newest_of(eps);
    let newest_ep = eps[ni];
    let sig = chain_signature(newest_ep);
    if chars_of(sig.as_str()).len() == 0 || !group_valid(eps, &sig) {
        return None;
    }
    let ghost s = newest_ep.steps@;
    let mut params: Vec<(String, JsonValue)> = Vec::new();
    let mut templates: Vec<SkillStep> = Vec::new();
    let mut i: usize = 0;
    while i < newest_ep.steps.len()
        invariant
            i <= newest_ep.steps.len(),
            s == newest_ep.steps@,
            entries_view(params@) == params_steps(eps@, s, i as int),
            templates@.len() == i,
            forall|q: int|
                0 <= q < i ==> (#[trigger] templates@[q]).tool@ == s[q].tool@ && json_view(templates@[q].args)
                    == JsonView::Object(template_fields(eps@, q, obj_fields(s[q].args))),
        decreases newest_ep.steps.len() - i,
    {
        let t = step_template(eps, i, &newest_ep.steps[i].args, &mut params);
        proof {
            lemma_fields_view_entries(t@);
        }
        templates.push(SkillStep { tool: newest_ep.steps[i].tool.clone(), args: JsonValue::Object(t) });
        i = i + 1;
    }
    if params.len() == 0 {
        return None;
    }
    let parameters = build_parameters(&params);
    let kind = if templates.len() == 1 {
        let step0 = templates.pop().unwrap();
        let fields = match step0.args {
            JsonValue::Object(f) => f,
            _ => Vec::new(),
        };
        proof {
            lemma_fields_view_entries(fields@);
        }
        let fixed = without_params_exec(fields, &params);
        proof {
            lemma_fields_view_entries(fixed@);
        }
        SkillKind::Delegate { tool: step0.tool, fixed_args: JsonValue::Object(fixed) }
    } else {
        proof {
            assert(templates@.map_values(|st: SkillStep| (st.tool@, json_view(st.args))) =~= group_recipe(eps@).1);
        }
        SkillKind::Sequence { steps: templates }
    };
    let gi = generic_of(eps);
    let generic = trimmed(&chars_of(eps[gi].objective.as_str()));
    let mut name = chars_of("learned_");
    extend_str(&mut name, slugify(string_of(&generic).as_str()).as_str());
    let mut desc = chars_of("Learned from ");
    push_decimal(&mut desc, eps.len() as u64);
    extend_str(&mut desc, " successful runs like: ");
    crate::text::extend_chars(&mut desc, &generic);
    extend_str(&mut desc, " (parameters: ");
    crate::text::extend_chars(&mut desc, &join_names(&params));
    extend_str(&mut desc, ")");
    Some(
        SkillManifest {
            name: string_of(&name),
            description: string_of(&desc),
            kind,
            parameters,
            version: Some("0.1.0-learned".to_string()),
            stage: RolloutStage::Simulate,
            tags: vec!["learned".to_string(), "parameterized".to_string()],
            enabled: false,
            timeout_secs: 60,
        },
    )
}

} // verus!
