//! Skill manifests: what a skill is, how it is checked, and what running it
//! amounts to.
//!
//! A skill is a JSON manifest that turns a shell command, an HTTP request, a
//! delegation to another tool, or an ordered sequence of tool calls into a
//! tool of its own. `{param}` placeholders in its templates are filled from
//! the call's arguments.

use vstd::prelude::*;

use crate::schema::{
    enum_prop, enum_property, member, object_schema, object_schema_of, props_view, typed_prop, typed_property,
};
use crate::json::{fields_view, json_clone, json_text, json_text_of, json_view, JsonValue, JsonView};
use crate::text::uppercase;
use crate::text::{chars_of, extend_chars, extend_str, find, find_from, lemma_find_from_some, slice_chars, string_of};
use crate::tools::ToolResult;
use crate::track0::RolloutStage;

verus! {

broadcast use vstd::string::group_string_axioms;

/// One step of a sequence recipe.
#[derive(Debug, PartialEq)]
pub struct SkillStep {
    pub tool: String,
    pub args: JsonValue,
}

/// How a skill is executed.
#[derive(Debug, PartialEq)]
pub enum SkillKind {
    /// Execute a shell command; `{param}` placeholders are filled from the arguments.
    Shell { command: String },
    /// Make an HTTP request; `{param}` placeholders in `url` and the body are filled.
    Http { url: String, method: String, headers: Vec<(String, String)>, body_template: Option<String> },
    /// Call another tool by name with fixed arguments merged with the call's.
    Delegate { tool: String, fixed_args: JsonValue },
    /// Call tools in order, each with its argument template.
    Sequence { steps: Vec<SkillStep> },
}

/// A skill manifest.
#[derive(Debug, PartialEq)]
pub struct SkillManifest {
    /// Unique tool name (snake_case).
    pub name: String,
    /// Human-readable description shown to the model.
    pub description: String,
    /// How the skill is executed.
    pub kind: SkillKind,
    /// JSON Schema for the tool's parameters.
    pub parameters: JsonValue,
    /// Version of the skill, if any.
    pub version: Option<String>,
    /// Track 0 rollout stage.
    pub stage: RolloutStage,
    /// Free-form tags.
    pub tags: Vec<String>,
    /// Whether the skill is active.
    pub enabled: bool,
    /// Execution timeout in seconds.
    pub timeout_secs: u64,
}

/// A character of a snake_case skill name: `a`-`z`, `0`-`9` or `_`.
pub open spec fn name_char(c: char) -> bool {
    ('a' <= c && c <= 'z') || ('0' <= c && c <= '9') || c == '_'
}

/// A manifest name is snake_case: lowercase ASCII letters, digits and `_`
/// only.
pub open spec fn valid_name_chars(name: Seq<char>) -> bool {
    forall|i: int| 0 <= i < name.len() ==> name_char(#[trigger] name[i])
}

/// Why a manifest is refused: the error message, by the first failing rule.
pub open spec fn manifest_error(name: Seq<char>, description: Seq<char>) -> Option<Seq<char>> {
    if name.len() == 0 {
        Some("Skill manifest 'name' must not be empty"@)
    } else if description.len() == 0 {
        Some("Skill manifest 'description' must not be empty"@)
    } else if !valid_name_chars(name) {
        Some("Skill name '"@ + name + "' contains invalid characters (use a-z, 0-9, _)"@)
    } else {
        None
    }
}

impl SkillManifest {
    /// Checks the required fields: a non-empty snake_case name (`a`-`z`,
    /// `0`-`9`, `_`), and a non-empty description.
    pub fn validate(&self) -> (r: Result<(), String>)
        ensures
            match r {
                Ok(()) => manifest_error(self.name@, self.description@) is None,
                Err(m) => manifest_error(self.name@, self.description@) == Some(m@),
            },
    {
        let n = chars_of(self.name.as_str());
        if n.len() == 0 {
            return Err("Skill manifest 'name' must not be empty".to_string());
        }
        let d = chars_of(self.description.as_str());
        if d.len() == 0 {
            return Err("Skill manifest 'description' must not be empty".to_string());
        }
        let mut i: usize = 0;
        while i < n.len()
            invariant
                i <= n.len(),
                n@ == self.name@,
                self.name@.len() > 0,
                self.description@.len() > 0,
                forall|j: int| 0 <= j < i ==> name_char(#[trigger] n@[j]),
            decreases n.len() - i,
        {
            let c = n[i];
            if !(('a' <= c && c <= 'z') || ('0' <= c && c <= '9') || c == '_') {
                assert(!name_char(self.name@[i as int]));
                assert(!valid_name_chars(self.name@));
                let mut m = chars_of("Skill name '");
                extend_str(&mut m, self.name.as_str());
                extend_str(&mut m, "' contains invalid characters (use a-z, 0-9, _)");
                return Err(string_of(&m));
            }
            i = i + 1;
        }
        Ok(())
    }
}

// ── Placeholder substitution ─────────────────────────────────────────────────

/// `s[i..]` with every non-overlapping occurrence of `p` (left to right)
/// replaced by `r` (`str::replace`).
pub open spec fn replace_from(s: Seq<char>, p: Seq<char>, r: Seq<char>, i: int) -> Seq<char>
    decreases s.len() - i,
{
    if i < 0 || i > s.len() || p.len() == 0 {
        s.skip(i)
    } else {
        match find_from(s, p, i) {
            None => s.skip(i),
            Some(j) => {
                proof {
                    lemma_find_from_some(s, p, i);
                }
                s.subrange(i, j) + r + replace_from(s, p, r, j + p.len())
            },
        }
    }
}

/// `s` with every occurrence of `p` replaced by `r`.
pub open spec fn replace_all(s: Seq<char>, p: Seq<char>, r: Seq<char>) -> Seq<char> {
    replace_from(s, p, r, 0)
}

fn replace_chars(s: &[char], p: &[char], r: &[char]) -> (out: Vec<char>)
    requires
        p@.len() > 0,
    ensures
        out@ == replace_all(s@, p@, r@),
{
    let mut out: Vec<char> = Vec::new();
    let mut i: usize = 0;
    assert(out@ + replace_from(s@, p@, r@, 0) == replace_all(s@, p@, r@));
    loop
        invariant
            i <= s.len(),
            p@.len() > 0,
            out@ + replace_from(s@, p@, r@, i as int) == replace_all(s@, p@, r@),
        decreases s.len() - i,
    {
        match find(s, p, i) {
            Some(j) => {
                proof {
                    lemma_find_from_some(s@, p@, i as int);
                }
                let n = s.len();
                assert(j + p@.len() <= n);
                let ghost before = out@;
                extend_chars(&mut out, &slice_chars(s, i, j));
                extend_chars(&mut out, r);
                assert(replace_from(s@, p@, r@, i as int) == s@.subrange(i as int, j as int) + r@
                    + replace_from(s@, p@, r@, j + p@.len()));
                assert(before + (s@.subrange(i as int, j as int) + r@ + replace_from(
                    s@,
                    p@,
                    r@,
                    j + p@.len(),
                )) == out@ + replace_from(s@, p@, r@, j + p@.len()));
                i = j + p.len();
            },
            None => {
                let n = s.len();
                let ghost before = out@;
                extend_chars(&mut out, &slice_chars(s, i, n));
                assert(s@.subrange(i as int, n as int) == s@.skip(i as int));
                assert(out@ == before + replace_from(s@, p@, r@, i as int));
                return out;
            },
        }
    }
}

/// What a placeholder is replaced by: a string's text, else the value's JSON.
pub open spec fn replacement_text(v: JsonView) -> Seq<char> {
    match v {
        JsonView::Str(s) => s,
        _ => json_text_of(v),
    }
}

/// `template` with the placeholders of `fields[..n]` filled in, one member
/// after the other.
pub open spec fn substitute_fields(template: Seq<char>, fields: Seq<(Seq<char>, JsonView)>, n: int) -> Seq<
    char,
>
    decreases n,
{
    if n <= 0 || n > fields.len() {
        template
    } else {
        replace_all(
            substitute_fields(template, fields, n - 1),
            seq!['{'] + fields[n - 1].0 + seq!['}'],
            replacement_text(fields[n - 1].1),
        )
    }
}

/// `template` with each `{key}` filled from the members of an object
/// `args` (other values fill nothing).
pub open spec fn spec_substitute(template: Seq<char>, args: JsonView) -> Seq<char> {
    match args {
        JsonView::Object(fields) => substitute_fields(template, fields, fields.len() as int),
        _ => template,
    }
}

/// A placeholder is filled with its argument: in a template whose only `{`
/// opens the placeholder `{k}`, calling with the single string argument `k`
/// puts its text in the placeholder's place and keeps the rest.
pub proof fn lemma_placeholder_filled(a: Seq<char>, k: Seq<char>, v: Seq<char>, b: Seq<char>)
    requires
        forall|i: int| 0 <= i < a.len() ==> a[i] != '{',
        forall|i: int| 0 <= i < b.len() ==> b[i] != '{',
    ensures
        spec_substitute(a + seq!['{'] + k + seq!['}'] + b, JsonView::Object(seq![(k, JsonView::Str(v))]))
            == a + v + b,
{
    let p = seq!['{'] + k + seq!['}'];
    let t = a + seq!['{'] + k + seq!['}'] + b;
    let fields = seq![(k, JsonView::Str(v))];
    let n = a.len() as int;
    let m = n + p.len();
    assert(t =~= a + p + b);
    assert(substitute_fields(t, fields, 0) == t);
    assert(substitute_fields(t, fields, 1) == replace_all(t, p, v));
    assert(t.subrange(n, m) =~= p);
    assert forall|j: int| 0 <= j < n implies !crate::text::matches_at(t, p, j) by {
        if crate::text::matches_at(t, p, j) {
            assert(t.subrange(j, j + p.len())[0] == t[j]);
            assert(t[j] == a[j]);
        }
    }
    crate::text::lemma_find_first_at(t, p, 0, n);
    assert(find_from(t, p, m) is None) by {
        if find_from(t, p, m) is Some {
            lemma_find_from_some(t, p, m);
            let j = find_from(t, p, m)->0;
            assert(t.subrange(j, j + p.len())[0] == t[j]);
            assert(t[j] == b[j - m]);
        }
    }
    assert(replace_from(t, p, v, m) == t.skip(m));
    assert(t.skip(m) =~= b);
    assert(t.subrange(0, n) =~= a);
}

impl SkillTool {
/// Fills `{placeholder}` tokens in a template with argument values.
pub fn substitute(template: &str, args: &JsonValue) -> (r: String)
    ensures
        r@ == spec_substitute(template@, json_view(*args)),
{
    match args {
        JsonValue::Object(fields) => {
            let ghost fv = crate::json::fields_view(fields@, 0);
            proof {
                lemma_fields_view_index(fields@);
            }
            let mut result = chars_of(template);
            let mut i: usize = 0;
            while i < fields.len()
                invariant
                    i <= fields.len(),
                    fv == crate::json::fields_view(fields@, 0),
                    fv.len() == fields@.len(),
                    forall|k: int|
                        0 <= k < fields@.len() ==> #[trigger] fv[k] == (fields@[k].0@, json_view(
                            fields@[k].1,
                        )),
                    result@ == substitute_fields(template@, fv, i as int),
                decreases fields.len() - i,
            {
                let mut p = vec!['{'];
                extend_str(&mut p, fields[i].0.as_str());
                p.push('}');
                assert(p@ == seq!['{'] + fv[i as int].0 + seq!['}']);
                let rep = match &fields[i].1 {
                    JsonValue::String(s) => chars_of(s.as_str()),
                    other => chars_of(json_text(other).as_str()),
                };
                assert(rep@ == replacement_text(fv[i as int].1));
                result = replace_chars(&result, &p, &rep);
                i = i + 1;
            }
            string_of(&result)
        },
        _ => template.to_string(),
    }
}
}

proof fn lemma_fields_view_index(f: Seq<(String, JsonValue)>)
    ensures
        crate::json::fields_view(f, 0).len() == f.len(),
        forall|k: int|
            0 <= k < f.len() ==> #[trigger] crate::json::fields_view(f, 0)[k] == (f[k].0@, json_view(
                f[k].1,
            )),
{
    lemma_fields_view_from(f, 0);
    assert forall|k: int| 0 <= k < f.len() implies #[trigger] crate::json::fields_view(f, 0)[k] == (
    f[k].0@, json_view(f[k].1)) by {
        assert(crate::json::fields_view(f, 0)[k - 0] == (f[k].0@, json_view(f[k].1)));
    }
}

proof fn lemma_fields_view_from(f: Seq<(String, JsonValue)>, i: int)
    requires
        0 <= i <= f.len(),
    ensures
        crate::json::fields_view(f, i).len() == f.len() - i,
        forall|k: int|
            i <= k < f.len() ==> #[trigger] crate::json::fields_view(f, i)[k - i] == (f[k].0@, json_view(
                f[k].1,
            )),
    decreases f.len() - i,
{
    if i < f.len() {
        lemma_fields_view_from(f, i + 1);
        assert forall|k: int| i <= k < f.len() implies #[trigger] crate::json::fields_view(f, i)[k
            - i] == (f[k].0@, json_view(f[k].1)) by {
            if k > i {
                assert(crate::json::fields_view(f, i)[k - i] == crate::json::fields_view(f, i + 1)[k
                    - (i + 1)]);
            }
        }
    }
}


// ── The forge ────────────────────────────────────────────────────────────────

/// The directory of `.skill.json` manifest files skills are loaded from.
#[derive(Debug, Clone, PartialEq, Eq)]
pub struct SkillForge {
    /// Directory to scan for skill manifests.
    pub skill_dir: String,
}

/// The manifest file of a skill named `name` inside `dir`.
pub open spec fn manifest_file(dir: Seq<char>, name: Seq<char>) -> Seq<char> {
    let file = name + ".skill.json"@;
    if dir.len() == 0 {
        file
    } else if dir.last() == '/' {
        dir + file
    } else {
        dir + seq!['/'] + file
    }
}

/// `rest` (a relative path) under `dir`, as a path join places it: no
/// separator is added after an empty directory or one ending in `/`.
pub open spec fn path_join(dir: Seq<char>, rest: Seq<char>) -> Seq<char> {
    if dir.len() == 0 {
        rest
    } else if dir.last() == '/' {
        dir + rest
    } else {
        dir + seq!['/'] + rest
    }
}

/// The default skill directory: `.config/oh-ben-claw/skills` under the home
/// directory when one is known, else `/etc/oh-ben-claw/skills`.
pub open spec fn default_skill_dir(home: Option<Seq<char>>) -> Seq<char> {
    match home {
        Some(h) => path_join(h, ".config/oh-ben-claw/skills"@),
        None => "/etc/oh-ben-claw/skills"@,
    }
}

impl SkillForge {
    /// The default skill directory for the home directory `home` (the
    /// `HOME` variable, when set).
    pub fn default_dir(home: Option<&str>) -> (d: String)
        ensures
            d@ == default_skill_dir(
                match home {
                    Some(h) => Some(h@),
                    None => None,
                },
            ),
    {
        match home {
            Some(h) => {
                let hv = chars_of(h);
                let mut p = chars_of(h);
                if hv.len() > 0 && hv[hv.len() - 1] != '/' {
                    p.push('/');
                }
                extend_str(&mut p, ".config/oh-ben-claw/skills");
                assert(p@ =~= path_join(h@, ".config/oh-ben-claw/skills"@));
                string_of(&p)
            },
            None => "/etc/oh-ben-claw/skills".to_string(),
        }
    }

    /// A forge over `skill_dir`.
    pub fn new(skill_dir: String) -> (f: Self)
        ensures
            f.skill_dir == skill_dir,
    {
        SkillForge { skill_dir }
    }

    /// The file a manifest named `name` is installed to.
    pub fn manifest_path(&self, name: &str) -> (p: String)
        ensures
            p@ == manifest_file(self.skill_dir@, name@),
    {
        let d = chars_of(self.skill_dir.as_str());
        let mut p = chars_of(self.skill_dir.as_str());
        if d.len() > 0 && d[d.len() - 1] != '/' {
            p.push('/');
        }
        extend_str(&mut p, name);
        extend_str(&mut p, ".skill.json");
        assert(p@ =~= manifest_file(self.skill_dir@, name@));
        string_of(&p)
    }
}

/// Whether a file name is that of a skill manifest.
pub fn is_skill_manifest(file_name: &str) -> (b: bool)
    ensures
        b == crate::text::ends_with(file_name@, ".skill.json"@),
{
    crate::text::has_suffix(&chars_of(file_name), &chars_of(".skill.json"))
}

/// The agent tool that manages the forge at runtime.
#[derive(Debug, Clone, PartialEq, Eq)]
pub struct SkillForgeTool {
    pub forge: SkillForge,
}

/// The parameters of [`SkillForgeTool`].
pub open spec fn skill_forge_schema() -> JsonView {
    object_schema(
        seq![
            ("action"@, enum_prop("Action to perform."@, seq!["list"@, "install"@, "remove"@])),
            ("manifest"@, typed_prop("object"@, "Skill manifest JSON object (required for 'install' action)."@)),
            ("name"@, typed_prop("string"@, "Skill name (required for 'remove' action)."@)),
        ],
        seq!["action"@],
    )
}

impl SkillForgeTool {
    /// The tool over `forge`.
    pub fn new(forge: SkillForge) -> (t: Self)
        ensures
            t.forge == forge,
    {
        SkillForgeTool { forge }
    }

    /// The tool over the default skill directory for the home directory
    /// `home`.
    pub fn default_dir(home: Option<&str>) -> (t: Self)
        ensures
            t.forge.skill_dir@ == default_skill_dir(
                match home {
                    Some(h) => Some(h@),
                    None => None,
                },
            ),
    {
        SkillForgeTool::new(SkillForge::new(SkillForge::default_dir(home)))
    }

    pub fn name(&self) -> (s: &'static str)
        ensures
            s@ == "skill_forge"@,
    {
        "skill_forge"
    }

    pub fn description(&self) -> (s: &'static str)
        ensures
            s@ == "Manage the skill forge: list installed skills, install new skills from a JSON manifest, or remove existing skills. Skills extend the agent's capabilities at runtime without requiring a restart."@,
    {
        "Manage the skill forge: list installed skills, install new skills from a JSON manifest, or remove existing skills. Skills extend the agent's capabilities at runtime without requiring a restart."
    }

    /// The JSON Schema of the tool's parameters (see [`skill_forge_schema`]).
    pub fn parameters_schema(&self) -> (v: JsonValue)
        ensures
            json_view(v) == skill_forge_schema(),
    {
        let c0: &[&str] = &["list", "install", "remove"];
        let props: Vec<(String, JsonValue)> = vec![
            member("action", enum_property("Action to perform.", c0)),
            member("manifest", typed_property("object", "Skill manifest JSON object (required for 'install' action).")),
            member("name", typed_property("string", "Skill name (required for 'remove' action).")),
        ];
        let required: &[&str] = &["action"];
        assert(c0@.map_values(|n: &str| n@) =~= seq!["list"@, "install"@, "remove"@]);
        assert(props_view(props@) =~= seq![
            ("action"@, enum_prop("Action to perform."@, seq!["list"@, "install"@, "remove"@])),
            ("manifest"@, typed_prop("object"@, "Skill manifest JSON object (required for 'install' action)."@)),
            ("name"@, typed_prop("string"@, "Skill name (required for 'remove' action)."@)),
        ]);
        assert(required@.map_values(|n: &str| n@) =~= seq!["action"@]);
        object_schema_of(props, required)
    }
}


// ── Running a skill ──────────────────────────────────────────────────────────

/// What a call of a skill amounts to.
#[derive(Debug, PartialEq)]
pub enum SkillCall {
    /// The call is answered without outside work.
    Done(ToolResult),
    /// Run `command` with `sh -c`, for at most `timeout_secs`.
    Shell { command: String, timeout_secs: u64 },
    /// An HTTP request: with a body (`method` as given, POST when the
    /// transport does not know it) or a GET without one.
    Http { url: String, method: String, body: Option<String>, headers: Vec<(String, String)> },
    /// Tool calls for the agent to run in order, each through its checks.
    Steps { steps: Vec<(String, JsonValue)> },
}

/// Sets member `k` of `f` to `v`: replaces the first member named `k`, or
/// appends one.
pub open spec fn set_member(f: Seq<(Seq<char>, JsonView)>, k: Seq<char>, v: JsonView) -> Seq<
    (Seq<char>, JsonView),
> {
    if exists|i: int| 0 <= i < f.len() && (#[trigger] f[i]).0 == k {
        let i = choose|i: int| 0 <= i < f.len() && (#[trigger] f[i]).0 == k && forall|j: int| 0 <= j < i ==> (#[trigger] f[j]).0 != k;
        f.update(i, (k, v))
    } else {
        f.push((k, v))
    }
}

/// `f` with the members `a[..n]` set, one after the other.
pub open spec fn merge_members(f: Seq<(Seq<char>, JsonView)>, a: Seq<(Seq<char>, JsonView)>, n: int) -> Seq<
    (Seq<char>, JsonView),
>
    decreases n,
{
    if n <= 0 || n > a.len() {
        f
    } else {
        let m = merge_members(f, a, n - 1);
        set_member(m, a[n - 1].0, a[n - 1].1)
    }
}

/// The fixed arguments of a delegation merged with the call's: the call's
/// members take precedence (only when both are objects).
pub open spec fn merged_args(fixed: JsonView, args: JsonView) -> JsonView {
    match (fixed, args) {
        (JsonView::Object(f), JsonView::Object(a)) => JsonView::Object(merge_members(f, a, a.len() as int)),
        _ => fixed,
    }
}

/// The value of the first member named `k` of `f`, if any.
pub open spec fn member_value(f: Seq<(Seq<char>, JsonView)>, k: Seq<char>) -> Option<JsonView> {
    if exists|i: int| 0 <= i < f.len() && (#[trigger] f[i]).0 == k {
        let i = choose|i: int| 0 <= i < f.len() && (#[trigger] f[i]).0 == k && forall|j: int| 0 <= j < i ==> (#[trigger] f[j]).0 != k;
        Some(f[i].1)
    } else {
        None
    }
}

/// `v[k]` for an object `v`; `None` for other values.
pub open spec fn view_get(v: JsonView, k: Seq<char>) -> Option<JsonView> {
    match v {
        JsonView::Object(f) => member_value(f, k),
        _ => None,
    }
}

/// No member name occurs twice in `f` (as in any JSON object map).
pub open spec fn names_unique(f: Seq<(Seq<char>, JsonView)>) -> bool {
    forall|i: int, j: int| 0 <= i < j < f.len() ==> f[i].0 != f[j].0
}

proof fn lemma_member_value_first(f: Seq<(Seq<char>, JsonView)>, k: Seq<char>, i: int)
    requires
        0 <= i < f.len(),
        f[i].0 == k,
        forall|j: int| 0 <= j < i ==> (#[trigger] f[j]).0 != k,
    ensures
        member_value(f, k) == Some(f[i].1),
{
    assert(exists|w: int| 0 <= w < f.len() && (#[trigger] f[w]).0 == k);
    let c = choose|w: int| 0 <= w < f.len() && (#[trigger] f[w]).0 == k && forall|j: int| 0 <= j < w ==> (#[trigger] f[j]).0 != k;
    assert(exists|w: int| 0 <= w < f.len() && (#[trigger] f[w]).0 == k && forall|j: int| 0 <= j < w ==> (#[trigger] f[j]).0 != k) by {
        assert(f[i].0 == k);
    }
    if c < i {
        assert(f[c].0 != k);
    } else if c > i {
        assert(f[i].0 != k);
    }
}

proof fn lemma_member_value_exists(f: Seq<(Seq<char>, JsonView)>, k: Seq<char>)
    requires
        exists|i: int| 0 <= i < f.len() && (#[trigger] f[i]).0 == k,
    ensures
        exists|i: int| 0 <= i < f.len() && (#[trigger] f[i]).0 == k && forall|j: int| 0 <= j < i ==> (#[trigger] f[j]).0 != k,
    decreases f.len(),
{
    let w = choose|i: int| 0 <= i < f.len() && (#[trigger] f[i]).0 == k;
    if w > 0 && exists|i: int| 0 <= i < w && (#[trigger] f[i]).0 == k {
        let g = f.take(w);
        assert forall|i: int| 0 <= i < g.len() implies #[trigger] g[i] == f[i] by {}
        let i0 = choose|i: int| 0 <= i < w && (#[trigger] f[i]).0 == k;
        assert(g[i0].0 == k);
        lemma_member_value_exists(g, k);
        let c = choose|i: int| 0 <= i < g.len() && (#[trigger] g[i]).0 == k && forall|j: int| 0 <= j < i ==> (#[trigger] g[j]).0 != k;
        assert(f[c].0 == k);
        assert forall|j: int| 0 <= j < c implies (#[trigger] f[j]).0 != k by {
            assert(g[j].0 != k);
        }
    } else {
        assert forall|j: int| 0 <= j < w implies (#[trigger] f[j]).0 != k by {}
    }
}

/// Setting member `k` makes `v` its value and leaves every other member's
/// value as it was.
proof fn lemma_set_member_get(g: Seq<(Seq<char>, JsonView)>, k: Seq<char>, v: JsonView, q: Seq<char>)
    ensures
        member_value(set_member(g, k, v), q) == (if q == k {
            Some(v)
        } else {
            member_value(g, q)
        }),
{
    let s = set_member(g, k, v);
    if exists|i: int| 0 <= i < g.len() && (#[trigger] g[i]).0 == k {
        lemma_member_value_exists(g, k);
        let i0 = choose|i: int| 0 <= i < g.len() && (#[trigger] g[i]).0 == k && forall|j: int| 0 <= j < i ==> (#[trigger] g[j]).0 != k;
        assert(s == g.update(i0, (k, v)));
        if q == k {
            assert forall|j: int| 0 <= j < i0 implies (#[trigger] s[j]).0 != k by {
                assert(s[j] == g[j]);
            }
            lemma_member_value_first(s, k, i0);
        } else {
            assert forall|j: int| 0 <= j < s.len() implies (#[trigger] s[j]).0 == q <==> g[j].0 == q by {}
            if exists|i: int| 0 <= i < g.len() && (#[trigger] g[i]).0 == q {
                lemma_member_value_exists(g, q);
                let c = choose|i: int| 0 <= i < g.len() && (#[trigger] g[i]).0 == q && forall|j: int| 0 <= j < i ==> (#[trigger] g[j]).0 != q;
                lemma_member_value_first(g, q, c);
                assert(s[c] == g[c]);
                assert forall|j: int| 0 <= j < c implies (#[trigger] s[j]).0 != q by {
                    assert(g[j].0 != q);
                }
                lemma_member_value_first(s, q, c);
            } else {
                assert(!exists|i: int| 0 <= i < s.len() && (#[trigger] s[i]).0 == q) by {
                    if exists|i: int| 0 <= i < s.len() && (#[trigger] s[i]).0 == q {
                        let i = choose|i: int| 0 <= i < s.len() && (#[trigger] s[i]).0 == q;
                        assert(g[i].0 == q);
                    }
                }
            }
        }
    } else {
        assert(s == g.push((k, v)));
        if q == k {
            assert forall|j: int| 0 <= j < g.len() implies (#[trigger] s[j]).0 != k by {
                assert(s[j] == g[j]);
            }
            lemma_member_value_first(s, k, g.len() as int);
        } else {
            if exists|i: int| 0 <= i < g.len() && (#[trigger] g[i]).0 == q {
                lemma_member_value_exists(g, q);
                let c = choose|i: int| 0 <= i < g.len() && (#[trigger] g[i]).0 == q && forall|j: int| 0 <= j < i ==> (#[trigger] g[j]).0 != q;
                lemma_member_value_first(g, q, c);
                assert(s[c] == g[c]);
                assert forall|j: int| 0 <= j < c implies (#[trigger] s[j]).0 != q by {
                    assert(s[j] == g[j]);
                }
                lemma_member_value_first(s, q, c);
            } else {
                assert(!exists|i: int| 0 <= i < s.len() && (#[trigger] s[i]).0 == q) by {
                    if exists|i: int| 0 <= i < s.len() && (#[trigger] s[i]).0 == q {
                        let i = choose|i: int| 0 <= i < s.len() && (#[trigger] s[i]).0 == q;
                        if i < g.len() {
                            assert(s[i] == g[i]);
                        }
                    }
                }
            }
        }
    }
}

proof fn lemma_merge_members_get(f: Seq<(Seq<char>, JsonView)>, a: Seq<(Seq<char>, JsonView)>, n: int, q: Seq<char>)
    requires
        0 <= n <= a.len(),
        names_unique(a),
    ensures
        member_value(merge_members(f, a, n), q) == (match member_value(a.take(n), q) {
            Some(v) => Some(v),
            None => member_value(f, q),
        }),
    decreases n,
{
    if n == 0 {
        assert(!exists|i: int| 0 <= i < a.take(0).len() && (#[trigger] a.take(0)[i]).0 == q);
    } else {
        lemma_merge_members_get(f, a, n - 1, q);
        lemma_set_member_get(merge_members(f, a, n - 1), a[n - 1].0, a[n - 1].1, q);
        let t = a.take(n);
        let p = a.take(n - 1);
        assert forall|j: int| 0 <= j < p.len() implies #[trigger] p[j] == t[j] by {}
        if q == a[n - 1].0 {
            assert forall|j: int| 0 <= j < n - 1 implies (#[trigger] t[j]).0 != q by {
                assert(a[j].0 != a[n - 1].0);
            }
            lemma_member_value_first(t, q, n - 1);
        } else {
            if exists|i: int| 0 <= i < p.len() && (#[trigger] p[i]).0 == q {
                lemma_member_value_exists(p, q);
                let c = choose|i: int| 0 <= i < p.len() && (#[trigger] p[i]).0 == q && forall|j: int| 0 <= j < i ==> (#[trigger] p[j]).0 != q;
                lemma_member_value_first(p, q, c);
                assert forall|j: int| 0 <= j < c implies (#[trigger] t[j]).0 != q by {
                    assert(p[j].0 != q);
                }
                lemma_member_value_first(t, q, c);
            } else {
                assert(!exists|i: int| 0 <= i < t.len() && (#[trigger] t[i]).0 == q) by {
                    if exists|i: int| 0 <= i < t.len() && (#[trigger] t[i]).0 == q {
                        let i = choose|i: int| 0 <= i < t.len() && (#[trigger] t[i]).0 == q;
                        if i < n - 1 {
                            assert(p[i] == t[i]);
                        }
                    }
                }
            }
        }
    }
}

/// The call's arguments take precedence: when both the fixed arguments and
/// the call's are objects (the call's with distinct member names), each
/// member of the call's arguments has its value in the merge, and every
/// other member keeps the value the fixed arguments give it.
pub proof fn lemma_call_args_take_precedence(
    f: Seq<(Seq<char>, JsonView)>,
    a: Seq<(Seq<char>, JsonView)>,
    k: Seq<char>,
)
    requires
        names_unique(a),
    ensures
        view_get(merged_args(JsonView::Object(f), JsonView::Object(a)), k) == (match view_get(
            JsonView::Object(a),
            k,
        ) {
            Some(v) => Some(v),
            None => view_get(JsonView::Object(f), k),
        }),
        merged_args(JsonView::Object(f), JsonView::Object(a)) is Object,
{
    lemma_merge_members_get(f, a, a.len() as int, k);
    assert(a.take(a.len() as int) == a);
}

/// Unless both the fixed arguments and the call's are objects, the fixed
/// arguments are used as they are.
pub proof fn lemma_merge_keeps_fixed_unless_objects(fixed: JsonView, args: JsonView)
    requires
        !(fixed is Object && args is Object),
    ensures
        merged_args(fixed, args) == fixed,
{
}

fn set_member_exec(f: &mut Vec<(String, JsonValue)>, k: &String, v: &JsonValue)
    ensures
        fields_view(final(f)@, 0) == set_member(fields_view(old(f)@, 0), k@, json_view(*v)),
{
    proof {
        crate::json::lemma_fields_index(f@);
    }
    let ghost fv = fields_view(f@, 0);
    let kc = chars_of(k.as_str());
    let mut i: usize = 0;
    while i < f.len()
        invariant
            i <= f.len(),
            f@ == old(f)@,
            fv == fields_view(f@, 0),
            fv.len() == f@.len(),
            forall|q: int| 0 <= q < f@.len() ==> #[trigger] fv[q] == (f@[q].0@, json_view(f@[q].1)),
            kc@ == k@,
            forall|j: int| 0 <= j < i ==> (#[trigger] fv[j]).0 != k@,
        decreases f.len() - i,
    {
        if crate::text::chars_eq(&chars_of(f[i].0.as_str()), &kc) {
            let ghost w = choose|w: int| 0 <= w < fv.len() && (#[trigger] fv[w]).0 == k@ && forall|j: int| 0 <= j < w ==> (#[trigger] fv[j]).0 != k@;
            assert(fv[i as int].0 == k@);
            assert(w == i) by {
                if w < i {
                    assert(fv[w].0 != k@);
                } else if w > i {
                    assert(fv[i as int].0 != k@);
                }
            }
            f.set(i, (k.clone(), json_clone(v)));
            proof {
                crate::json::lemma_fields_index(f@);
            }
            assert(fields_view(f@, 0) =~= fv.update(i as int, (k@, json_view(*v))));
            return;
        }
        i = i + 1;
    }
    f.push((k.clone(), json_clone(v)));
    proof {
        crate::json::lemma_fields_index(f@);
    }
    assert(fields_view(f@, 0) =~= fv.push((k@, json_view(*v))));
}

/// The fixed arguments merged with the call's (see [`merged_args`]).
pub fn merge_args(fixed: &JsonValue, args: &JsonValue) -> (m: JsonValue)
    ensures
        json_view(m) == merged_args(json_view(*fixed), json_view(*args)),
{
    match (fixed, args) {
        (JsonValue::Object(f), JsonValue::Object(a)) => {
            let mut out: Vec<(String, JsonValue)> = Vec::new();
            let mut q: usize = 0;
            proof {
                crate::json::lemma_fields_index(f@);
            }
            while q < f.len()
                invariant
                    q <= f.len(),
                    out@.len() == q,
                    forall|w: int| 0 <= w < q ==> (#[trigger] out@[w]).0@ == f@[w].0@ && json_view(out@[w].1) == json_view(f@[w].1),
                decreases f.len() - q,
            {
                out.push((f[q].0.clone(), json_clone(&f[q].1)));
                q = q + 1;
            }
            proof {
                crate::json::lemma_fields_index(out@);
                crate::json::lemma_fields_index(f@);
                assert(fields_view(out@, 0) =~= fields_view(f@, 0));
                crate::json::lemma_fields_index(a@);
            }
            let ghost av = fields_view(a@, 0);
            let mut i: usize = 0;
            while i < a.len()
                invariant
                    i <= a.len(),
                    av == fields_view(a@, 0),
                    av.len() == a@.len(),
                    forall|w: int| 0 <= w < a@.len() ==> #[trigger] av[w] == (a@[w].0@, json_view(a@[w].1)),
                    fields_view(out@, 0) == merge_members(fields_view(f@, 0), av, i as int),
                decreases a.len() - i,
            {
                set_member_exec(&mut out, &a[i].0, &a[i].1);
                i = i + 1;
            }
            JsonValue::Object(out)
        },
        _ => json_clone(fixed),
    }
}

/// What calling a skill with `args` amounts to.
pub open spec fn call_view(m: SkillManifest, args: JsonView) -> SkillCallView {
    if !m.enabled {
        SkillCallView::Done {
            ok: false,
            output: Seq::<char>::empty(),
            error: Some("Skill '"@ + m.name@ + "' is disabled"@),
        }
    } else {
        match m.kind {
            SkillKind::Shell { command } => SkillCallView::Shell {
                command: spec_substitute(command@, args),
                timeout_secs: m.timeout_secs,
            },
            SkillKind::Http { url, method, headers, body_template } => SkillCallView::Http {
                url: spec_substitute(url@, args),
                method: method@,
                body: if uppercase(method@) == "POST"@ || uppercase(method@) == "PUT"@ || uppercase(method@)
                    == "PATCH"@ {
                    Some(
                        match body_template {
                            Some(t) => spec_substitute(t@, args),
                            None => json_text_of(args),
                        },
                    )
                } else {
                    None
                },
            },
            SkillKind::Delegate { tool, fixed_args } => SkillCallView::Done {
                ok: true,
                output: "Delegate to tool '"@ + tool@ + "' with args: "@ + json_text_of(
                    merged_args(json_view(fixed_args), args),
                ),
                error: None,
            },
            SkillKind::Sequence { steps } => SkillCallView::Steps {
                steps: steps@.map_values(|s: SkillStep| (s.tool@, json_view(s.args))),
            },
        }
    }
}

/// The content of a [`SkillCall`] (headers aside, which are the manifest's).
pub enum SkillCallView {
    Done { ok: bool, output: Seq<char>, error: Option<Seq<char>> },
    Shell { command: Seq<char>, timeout_secs: u64 },
    Http { url: Seq<char>, method: Seq<char>, body: Option<Seq<char>> },
    Steps { steps: Seq<(Seq<char>, JsonView)> },
}

pub open spec fn skill_call_view(c: SkillCall) -> SkillCallView {
    match c {
        SkillCall::Done(r) => SkillCallView::Done {
            ok: r.success,
            output: r.output@,
            error: match r.error {
                Some(e) => Some(e@),
                None => None,
            },
        },
        SkillCall::Shell { command, timeout_secs } => SkillCallView::Shell { command: command@, timeout_secs },
        SkillCall::Http { url, method, body, .. } => SkillCallView::Http {
            url: url@,
            method: method@,
            body: match body {
                Some(b) => Some(b@),
                None => None,
            },
        },
        SkillCall::Steps { steps } => SkillCallView::Steps {
            steps: steps@.map_values(|s: (String, JsonValue)| (s.0@, json_view(s.1))),
        },
    }
}

/// A loaded skill: a validated manifest.
#[derive(Debug)]
pub struct SkillTool {
    manifest: SkillManifest,
}

impl SkillTool {
    pub closed spec fn spec_manifest(&self) -> SkillManifest {
        self.manifest
    }

    /// The tool for `manifest`, refused when the manifest is invalid.
    pub fn new(manifest: SkillManifest) -> (r: Result<SkillTool, String>)
        ensures
            match r {
                Ok(t) => t.spec_manifest() == manifest && manifest_error(manifest.name@, manifest.description@) is None,
                Err(e) => manifest_error(manifest.name@, manifest.description@) == Some(e@),
            },
    {
        match manifest.validate() {
            Ok(()) => Ok(SkillTool { manifest }),
            Err(e) => Err(e),
        }
    }

    /// The tool's name: the manifest's.
    pub fn name(&self) -> (s: &str)
        ensures
            s@ == self.spec_manifest().name@,
    {
        self.manifest.name.as_str()
    }

    /// The tool's description: the manifest's.
    pub fn description(&self) -> (s: &str)
        ensures
            s@ == self.spec_manifest().description@,
    {
        self.manifest.description.as_str()
    }

    /// The JSON Schema of the skill's parameters: the manifest's.
    pub fn parameters_schema(&self) -> (v: JsonValue)
        ensures
            json_view(v) == json_view(self.spec_manifest().parameters),
    {
        json_clone(&self.manifest.parameters)
    }

    /// What calling the skill with `args` amounts to: a disabled skill
    /// refuses; a shell or HTTP skill fills its templates; a delegation
    /// answers with the merged arguments; a sequence hands out its steps.
    pub fn plan(&self, args: &JsonValue) -> (c: SkillCall)
        ensures
            skill_call_view(c) == call_view(self.spec_manifest(), json_view(*args)),
            c matches SkillCall::Http { headers, .. } ==> self.spec_manifest().kind matches SkillKind::Http { headers: h, .. } && crate::install_policy::pairs_view(headers@) == crate::install_policy::pairs_view(h@),
    {
        let m = &self.manifest;
        if !m.enabled {
            let mut t = chars_of("Skill '");
            extend_str(&mut t, m.name.as_str());
            extend_str(&mut t, "' is disabled");
            return SkillCall::Done(ToolResult::err(string_of(&t)));
        }
        match &m.kind {
            SkillKind::Shell { command } => SkillCall::Shell {
                command: SkillTool::substitute(command.as_str(), args),
                timeout_secs: m.timeout_secs,
            },
            SkillKind::Http { url, method, headers, body_template } => {
                let up = crate::text::to_uppercase(method.as_str());
                let u = chars_of(up.as_str());
                let with_body = crate::text::chars_eq(&u, &chars_of("POST")) || crate::text::chars_eq(
                    &u,
                    &chars_of("PUT"),
                ) || crate::text::chars_eq(&u, &chars_of("PATCH"));
                let body = if with_body {
                    Some(
                        match body_template {
                            Some(t) => SkillTool::substitute(t.as_str(), args),
                            None => json_text(args),
                        },
                    )
                } else {
                    None
                };
                let mut hs: Vec<(String, String)> = Vec::new();
                let mut i: usize = 0;
                while i < headers.len()
                    invariant
                        i <= headers.len(),
                        hs@.len() == i,
                        forall|q: int| 0 <= q < i ==> (#[trigger] hs@[q]).0@ == headers@[q].0@ && hs@[q].1@ == headers@[q].1@,
                    decreases headers.len() - i,
                {
                    hs.push((headers[i].0.clone(), headers[i].1.clone()));
                    i = i + 1;
                }
                assert(crate::install_policy::pairs_view(hs@) =~= crate::install_policy::pairs_view(headers@));
                SkillCall::Http {
                    url: SkillTool::substitute(url.as_str(), args),
                    method: method.clone(),
                    body,
                    headers: hs,
                }
            },
            SkillKind::Delegate { tool, fixed_args } => {
                let merged = merge_args(fixed_args, args);
                let mut t = chars_of("Delegate to tool '");
                extend_str(&mut t, tool.as_str());
                extend_str(&mut t, "' with args: ");
                extend_str(&mut t, json_text(&merged).as_str());
                SkillCall::Done(ToolResult::ok(string_of(&t)))
            },
            SkillKind::Sequence { steps } => {
                let mut out: Vec<(String, JsonValue)> = Vec::new();
                let mut i: usize = 0;
                while i < steps.len()
                    invariant
                        i <= steps.len(),
                        out@.len() == i,
                        forall|q: int| 0 <= q < i ==> (#[trigger] out@[q]).0@ == steps@[q].tool@ && json_view(out@[q].1) == json_view(steps@[q].args),
                    decreases steps.len() - i,
                {
                    out.push((steps[i].tool.clone(), json_clone(&steps[i].args)));
                    i = i + 1;
                }
                assert(out@.map_values(|s: (String, JsonValue)| (s.0@, json_view(s.1))) =~= steps@.map_values(|s: SkillStep| (s.tool@, json_view(s.args))));
                SkillCall::Steps { steps: out }
            },
        }
    }
}


// ── Managing the forge ───────────────────────────────────────────────────────

/// What a call of the forge tool asks for.
#[derive(Debug, PartialEq)]
pub enum ForgeRequest {
    /// List installed skills.
    List,
    /// Install the manifest given as JSON.
    Install { manifest: JsonValue },
    /// Remove the skill named `name`.
    Remove { name: String },
}

/// The content of a forge-tool call: the request, or the error message.
pub enum ForgeRequestView {
    List,
    Install { manifest: JsonView },
    Remove { name: Seq<char> },
    Refused { message: Seq<char> },
}

pub open spec fn forge_request_view(args: JsonValue) -> ForgeRequestView {
    match crate::tools::string_arg(args, "action"@) {
        None => ForgeRequestView::Refused { message: "Missing required argument: action"@ },
        Some(a) => if a == "list"@ {
            ForgeRequestView::List
        } else if a == "install"@ {
            match crate::json::json_get(args, "manifest"@) {
                Some(m) => ForgeRequestView::Install { manifest: json_view(m) },
                None => ForgeRequestView::Refused {
                    message: "Missing required argument: manifest (for 'install' action)"@,
                },
            }
        } else if a == "remove"@ {
            match crate::tools::string_arg(args, "name"@) {
                Some(n) => ForgeRequestView::Remove { name: n },
                None => ForgeRequestView::Refused {
                    message: "Missing required argument: name (for 'remove' action)"@,
                },
            }
        } else {
            ForgeRequestView::Refused {
                message: "Unknown action '"@ + a + "'. Use 'list', 'install', or 'remove'."@,
            }
        },
    }
}

/// The summary of a skill in a forge listing: its name, description,
/// version (or `null`), whether it is enabled, and its tags.
pub open spec fn manifest_summary(m: SkillManifest) -> JsonView {
    JsonView::Object(
        seq![
            ("description"@, JsonView::Str(m.description@)),
            ("enabled"@, JsonView::Bool(m.enabled)),
            ("name"@, JsonView::Str(m.name@)),
            ("tags"@, crate::schema::str_array(crate::text::texts_view(m.tags@))),
            (
                "version"@,
                match m.version {
                    Some(v) => JsonView::Str(v@),
                    None => JsonView::Null,
                },
            ),
        ],
    )
}

fn summary_of(m: &SkillManifest) -> (v: JsonValue)
    ensures
        json_view(v) == manifest_summary(*m),
{
    let mut tags: Vec<&str> = Vec::new();
    let mut i: usize = 0;
    while i < m.tags.len()
        invariant
            i <= m.tags.len(),
            tags@.len() == i,
            forall|k: int| 0 <= k < i ==> (#[trigger] tags@[k])@ == m.tags@[k]@,
        decreases m.tags.len() - i,
    {
        tags.push(m.tags[i].as_str());
        i = i + 1;
    }
    let version = match &m.version {
        Some(v) => JsonValue::String(v.clone()),
        None => JsonValue::Null,
    };
    let ghost vv = json_view(version);
    assert(vv == match m.version {
        Some(x) => JsonView::Str(x@),
        None => JsonView::Null,
    });
    let ts = tags.as_slice();
    assert(ts@ == tags@);
    let t = crate::schema::string_array(ts);
    let ghost tv = json_view(t);
    assert(ts@.map_values(|n: &str| n@) =~= crate::text::texts_view(m.tags@));
    assert(tv == crate::schema::str_array(crate::text::texts_view(m.tags@)));
    let f = vec![
        member("description", JsonValue::String(m.description.clone())),
        member("enabled", JsonValue::Bool(m.enabled)),
        member("name", JsonValue::String(m.name.clone())),
        member("tags", t),
        member("version", version),
    ];
    let v = crate::schema::object(f);
    assert(props_view(f@) =~= seq![
        ("description"@, JsonView::Str(m.description@)),
        ("enabled"@, JsonView::Bool(m.enabled)),
        ("name"@, JsonView::Str(m.name@)),
        ("tags"@, tv),
        ("version"@, vv),
    ]);
    let ghost ms = manifest_summary(*m);
    assert(ms->Object_0 =~= seq![
        ("description"@, JsonView::Str(m.description@)),
        ("enabled"@, JsonView::Bool(m.enabled)),
        ("name"@, JsonView::Str(m.name@)),
        ("tags"@, tv),
        ("version"@, vv),
    ]);
    v
}

impl SkillForgeTool {
    /// The result of listing the installed skills `manifests`: their
    /// summaries as indented JSON, or a note that none is installed.
    pub fn list_result(manifests: &[SkillManifest]) -> (r: ToolResult)
        ensures
            r.success,
            r.error is None,
            r.output@ == if manifests@.len() == 0 {
                "No skills installed."@
            } else {
                crate::json::json_pretty_text_of(
                    JsonView::Array(manifests@.map_values(|m: SkillManifest| manifest_summary(m))),
                )
            },
    {
        if manifests.len() == 0 {
            return ToolResult::ok("No skills installed.".to_string());
        }
        let mut items: Vec<JsonValue> = Vec::new();
        let mut i: usize = 0;
        while i < manifests.len()
            invariant
                i <= manifests.len(),
                items@.map_values(|x: JsonValue| json_view(x)) == manifests@.take(i as int).map_values(
                    |m: SkillManifest| manifest_summary(m),
                ),
            decreases manifests.len() - i,
        {
            let ghost before = items@;
            items.push(summary_of(&manifests[i]));
            assert(items@.map_values(|x: JsonValue| json_view(x)) =~= before.map_values(|x: JsonValue| json_view(x)).push(
                manifest_summary(manifests@[i as int]),
            ));
            assert(manifests@.take(i + 1).map_values(|m: SkillManifest| manifest_summary(m)) =~= manifests@.take(
                i as int,
            ).map_values(|m: SkillManifest| manifest_summary(m)).push(manifest_summary(manifests@[i as int])));
            i = i + 1;
        }
        assert(manifests@.take(manifests@.len() as int) =~= manifests@);
        let list = crate::schema::array(items);
        ToolResult::ok(crate::json::json_pretty_text(&list))
    }

    /// What `args` ask of the forge tool, or the error result refusing them.
    pub fn request(args: &JsonValue) -> (r: Result<ForgeRequest, ToolResult>)
        ensures
            match r {
                Ok(ForgeRequest::List) => forge_request_view(*args) is List,
                Ok(ForgeRequest::Install { manifest }) => forge_request_view(*args) == (ForgeRequestView::Install { manifest: json_view(manifest) }),
                Ok(ForgeRequest::Remove { name }) => forge_request_view(*args) == (ForgeRequestView::Remove { name: name@ }),
                Err(e) => !e.success && e.output@.len() == 0 && e.error is Some && forge_request_view(*args) == (ForgeRequestView::Refused { message: e.error->0@ }),
            },
    {
        let action = match args.get("action") {
            Some(v) => match v.as_str() {
                Some(a) => a.to_string(),
                None => return Err(ToolResult::err("Missing required argument: action".to_string())),
            },
            None => return Err(ToolResult::err("Missing required argument: action".to_string())),
        };
        let a = chars_of(action.as_str());
        if crate::text::chars_eq(&a, &chars_of("list")) {
            Ok(ForgeRequest::List)
        } else if crate::text::chars_eq(&a, &chars_of("install")) {
            match args.get("manifest") {
                Some(m) => Ok(ForgeRequest::Install { manifest: json_clone(m) }),
                None => Err(
                    ToolResult::err(
                        "Missing required argument: manifest (for 'install' action)".to_string(),
                    ),
                ),
            }
        } else if crate::text::chars_eq(&a, &chars_of("remove")) {
            match args.get("name") {
                Some(v) => match v.as_str() {
                    Some(n) => Ok(ForgeRequest::Remove { name: n.to_string() }),
                    None => Err(
                        ToolResult::err(
                            "Missing required argument: name (for 'remove' action)".to_string(),
                        ),
                    ),
                },
                None => Err(
                    ToolResult::err("Missing required argument: name (for 'remove' action)".to_string()),
                ),
            }
        } else {
            let mut m = chars_of("Unknown action '");
            extend_str(&mut m, action.as_str());
            extend_str(&mut m, "'. Use 'list', 'install', or 'remove'.");
            Err(ToolResult::err(string_of(&m)))
        }
    }
}

} // verus!
