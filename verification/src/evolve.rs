//! Offline evolution of learned-skill descriptions.
//!
//! A scheduled, configuration-gated job asks the model to rewrite the
//! descriptions of learned skills from their recorded uses. Only the
//! `description` of a manifest is ever changed — never `enabled`, `stage`,
//! `kind` or `parameters`: evolution can make a skill easier to pick, never
//! easier to run. The model's answer is a proposal: sanitized,
//! length-bounded, and dropped when empty or unchanged.

use vstd::prelude::*;

use crate::install_policy::{char_utf8_width, utf8_len};
use crate::skill::{SkillForge, SkillManifest};
use crate::json::{json_text, json_text_of, json_view};
use crate::memory::{join_lines, join_lines_of};
use crate::synthesis::{Episode, Outcome};
use crate::text::{
    chars_of, chars_eq, ends_with, find_from, has_prefix, has_suffix, join4, join6, slice_chars,
    starts_with, string_of, trim, trimmed, trim_start, trim_end, is_white, matches_at,
};

verus! {

broadcast use vstd::string::group_string_axioms;

/// One line of the evolution diff log.
#[derive(Debug, Clone, PartialEq, Eq)]
pub struct EvolutionEntry {
    pub ts_ms: u64,
    pub skill: String,
    pub old: String,
    pub new: String,
    /// `"evolve"` or `"revert"`.
    pub kind: String,
}

/// Summary of one evolution pass.
#[derive(Debug, Clone, PartialEq, Eq)]
pub struct EvolveReport {
    /// Learned skills considered.
    pub considered: usize,
    /// Skills whose description was rewritten.
    pub rewritten: Vec<String>,
    /// Skills skipped (no usage traces, or the proposal was rejected).
    pub skipped: usize,
}

impl Default for EvolveReport {
    fn default() -> (r: Self)
        ensures
            r.considered == 0,
            r.rewritten@.len() == 0,
            r.skipped == 0,
    {
        EvolveReport { considered: 0, rewritten: Vec::new(), skipped: 0 }
    }
}

/// The scheduled description evolver: the forge it rewrites, the diff log
/// it appends to, and how many rewrites one pass may make.
#[derive(Debug)]
pub struct DescriptionEvolver {
    forge: SkillForge,
    log_path: String,
    max_per_pass: usize,
}

impl DescriptionEvolver {
    pub closed spec fn spec_max_per_pass(&self) -> usize {
        self.max_per_pass
    }

    pub closed spec fn spec_forge(&self) -> SkillForge {
        self.forge
    }

    pub closed spec fn spec_log_path(&self) -> Seq<char> {
        self.log_path@
    }

    /// The forge whose learned skills are rewritten.
    pub fn forge(&self) -> (f: &SkillForge)
        ensures
            *f == self.spec_forge(),
    {
        &self.forge
    }

    /// The diff log the rewrites are appended to.
    pub fn log_path(&self) -> (p: &str)
        ensures
            p@ == self.spec_log_path(),
    {
        self.log_path.as_str()
    }

    /// An evolver; a pass makes at least one rewrite.
    pub fn new(forge: SkillForge, log_path: String, max_per_pass: usize) -> (e: Self)
        ensures
            e.spec_forge() == forge,
            e.spec_log_path() == log_path@,
            e.spec_max_per_pass() == if max_per_pass >= 1 {
                max_per_pass
            } else {
                1
            },
    {
        let m = if max_per_pass >= 1 {
            max_per_pass
        } else {
            1
        };
        DescriptionEvolver { forge, log_path, max_per_pass: m }
    }

    /// The most rewrites one pass makes.
    pub fn max_per_pass(&self) -> (m: usize)
        ensures
            m == self.spec_max_per_pass(),
            m >= 1,
    {
        proof {
            use_type_invariant(self);
        }
        self.max_per_pass
    }

    #[verifier::type_invariant]
    closed spec fn at_least_one(&self) -> bool {
        self.max_per_pass >= 1
    }
}

/// Whether a skill is a learned one (its name starts with `learned_`).
pub fn is_learned(name: &str) -> (b: bool)
    ensures
        b == starts_with(name@, "learned_"@),
{
    has_prefix(&chars_of(name), &chars_of("learned_"))
}

/// Whether some step of `ep` invoked the tool named `skill`.
pub open spec fn spec_uses_skill(ep: Episode, skill: Seq<char>) -> bool {
    exists|i: int| 0 <= i < ep.steps@.len() && #[trigger] ep.steps@[i].tool@ == skill
}

/// Whether a recorded run invoked the skill.
pub fn uses_skill(ep: &Episode, skill: &str) -> (b: bool)
    ensures
        b == spec_uses_skill(*ep, skill@),
{
    let k = chars_of(skill);
    let mut i: usize = 0;
    while i < ep.steps.len()
        invariant
            i <= ep.steps.len(),
            k@ == skill@,
            forall|j: int| 0 <= j < i ==> #[trigger] ep.steps@[j].tool@ != skill@,
        decreases ep.steps.len() - i,
    {
        if chars_eq(&chars_of(ep.steps[i].tool.as_str()), &k) {
            return true;
        }
        i = i + 1;
    }
    false
}

// ── Sanitizing a proposal ────────────────────────────────────────────────────

/// `s` with every leading repetition of `p` removed (`trim_start_matches`).
pub open spec fn strip_leading(s: Seq<char>, p: Seq<char>) -> Seq<char>
    decreases s.len(),
{
    if p.len() > 0 && starts_with(s, p) {
        strip_leading(s.skip(p.len() as int), p)
    } else {
        s
    }
}

/// `s` with every trailing repetition of `p` removed (`trim_end_matches`).
pub open spec fn strip_trailing(s: Seq<char>, p: Seq<char>) -> Seq<char>
    decreases s.len(),
{
    if p.len() > 0 && ends_with(s, p) {
        strip_trailing(s.take(s.len() - p.len()), p)
    } else {
        s
    }
}

/// `s` without leading and trailing `"` (`trim_matches('"')`).
pub open spec fn strip_quotes(s: Seq<char>) -> Seq<char> {
    strip_trailing(strip_leading(s, seq!['"']), seq!['"'])
}

/// `s` up to its first line break.
pub open spec fn first_line(s: Seq<char>) -> Seq<char> {
    match find_from(s, seq!['\n'], 0) {
        Some(i) => s.take(i),
        None => s,
    }
}

/// A model's proposed description, cleaned: trimmed, unwrapped from a
/// ```` ``` ```` (or ```` ```text ````) fence and from quotes, cut to its
/// first line. `None` when the result is empty, longer than 300 bytes, or
/// equal to the current description.
pub open spec fn spec_sanitize(raw: Seq<char>, old: Seq<char>) -> Option<Seq<char>> {
    let s0 = trim(raw);
    let s1 = if starts_with(s0, "```"@) {
        trim(strip_trailing(strip_leading(strip_leading(s0, "```"@), "text"@), "```"@))
    } else {
        s0
    };
    let s2 = trim(strip_quotes(s1));
    let s3 = trim(first_line(s2));
    if s3.len() == 0 || utf8_len(s3) > 300 || s3 == old {
        None
    } else {
        Some(s3)
    }
}

fn strip_leading_exec(s: &[char], p: &[char]) -> (r: Vec<char>)
    requires
        p@.len() > 0,
    ensures
        r@ == strip_leading(s@, p@),
{
    let mut a: usize = 0;
    assert(s@.skip(0) == s@);
    while a <= s.len() && has_prefix(&slice_chars(s, a, s.len()), p)
        invariant
            a <= s.len(),
            p@.len() > 0,
            strip_leading(s@, p@) == strip_leading(s@.skip(a as int), p@),
        decreases s.len() - a,
    {
        assert(s@.skip(a as int).skip(p@.len() as int) == s@.skip(a + p@.len()));
        a = a + p.len();
    }
    slice_chars(s, a, s.len())
}

fn strip_trailing_exec(s: &[char], p: &[char]) -> (r: Vec<char>)
    requires
        p@.len() > 0,
    ensures
        r@ == strip_trailing(s@, p@),
{
    let mut b: usize = s.len();
    assert(s@.take(s@.len() as int) == s@);
    while has_suffix(&slice_chars(s, 0, b), p)
        invariant
            b <= s.len(),
            p@.len() > 0,
            strip_trailing(s@, p@) == strip_trailing(s@.take(b as int), p@),
        decreases b,
    {
        assert(s@.take(b as int).take(b - p@.len()) == s@.take(b - p@.len()));
        b = b - p.len();
    }
    slice_chars(s, 0, b)
}

/// Sanitizes a model's description proposal; `None` means rejected.
pub fn sanitize_proposal(raw: &str, old: &str) -> (r: Option<String>)
    ensures
        match r {
            Some(s) => spec_sanitize(raw@, old@) == Some(s@),
            None => spec_sanitize(raw@, old@) is None,
        },
{
    proof {
        reveal_strlit("```");
        reveal_strlit("text");
    }
    let fence = chars_of("```");
    let s0 = trimmed(&chars_of(raw));
    let s1 = if has_prefix(&s0, &fence) {
        let a = strip_leading_exec(&s0, &fence);
        let b = strip_leading_exec(&a, &chars_of("text"));
        let c = strip_trailing_exec(&b, &fence);
        trimmed(&c)
    } else {
        s0
    };
    let q = ['"'];
    assert(q@ == seq!['"']);
    let s2 = trimmed(&strip_trailing_exec(&strip_leading_exec(&s1, &q), &q));
    let nl = ['\n'];
    assert(nl@ == seq!['\n']);
    let line = match crate::text::find(&s2, &nl, 0) {
        Some(i) => {
            proof {
                crate::text::lemma_find_from_some(s2@, seq!['\n'], 0);
            }
            slice_chars(&s2, 0, i)
        },
        None => s2,
    };
    let s3 = trimmed(&line);
    if s3.len() == 0 {
        return None;
    }
    let mut bytes: u64 = 0;
    let mut i: usize = 0;
    while i < s3.len() && bytes <= 300
        invariant
            i <= s3.len(),
            bytes == utf8_len(s3@.take(i as int)),
            bytes <= 304,
        decreases s3.len() - i,
    {
        assert(s3@.take(i + 1).drop_last() == s3@.take(i as int));
        bytes = bytes + char_utf8_width(s3[i]);
        i = i + 1;
    }
    proof {
        lemma_utf8_len_prefix(s3@, i as int);
        if i == s3.len() {
            assert(s3@.take(s3@.len() as int) == s3@);
        }
    }
    if bytes > 300 || chars_eq(&s3, &chars_of(old)) {
        return None;
    }
    Some(string_of(&s3))
}

proof fn lemma_trim_start_keeps_out(s: Seq<char>, c: char)
    requires
        forall|i: int| 0 <= i < s.len() ==> s[i] != c,
    ensures
        forall|i: int| 0 <= i < trim_start(s).len() ==> trim_start(s)[i] != c,
    decreases s.len(),
{
    if s.len() > 0 && is_white(s[0]) {
        let t = s.drop_first();
        assert forall|i: int| 0 <= i < t.len() implies t[i] != c by {
            assert(t[i] == s[i + 1]);
        }
        lemma_trim_start_keeps_out(t, c);
        assert(trim_start(s) == trim_start(t));
    } else {
        assert(trim_start(s) == s);
    }
}

proof fn lemma_trim_end_keeps_out(s: Seq<char>, c: char)
    requires
        forall|i: int| 0 <= i < s.len() ==> s[i] != c,
    ensures
        forall|i: int| 0 <= i < trim_end(s).len() ==> trim_end(s)[i] != c,
    decreases s.len(),
{
    if s.len() > 0 && is_white(s.last()) {
        let t = s.drop_last();
        assert forall|i: int| 0 <= i < t.len() implies t[i] != c by {
            assert(t[i] == s[i]);
        }
        lemma_trim_end_keeps_out(t, c);
        assert(trim_end(s) == trim_end(t));
    } else {
        assert(trim_end(s) == s);
    }
}

/// Trimming adds no character: one absent from `s` is absent from `trim(s)`.
proof fn lemma_trim_keeps_out(s: Seq<char>, c: char)
    requires
        forall|i: int| 0 <= i < s.len() ==> s[i] != c,
    ensures
        forall|i: int| 0 <= i < trim(s).len() ==> trim(s)[i] != c,
{
    lemma_trim_start_keeps_out(s, c);
    lemma_trim_end_keeps_out(trim_start(s), c);
}

/// The first line of a text holds no line break.
proof fn lemma_first_line_one_line(s: Seq<char>)
    ensures
        forall|i: int| 0 <= i < first_line(s).len() ==> first_line(s)[i] != '\n',
{
    let nl = seq!['\n'];
    match find_from(s, nl, 0) {
        Some(k) => {
            crate::text::lemma_find_from_some(s, nl, 0);
            assert forall|i: int| 0 <= i < first_line(s).len() implies first_line(s)[i] != '\n' by {
                assert(first_line(s)[i] == s[i]);
                if s[i] == '\n' {
                    assert(s.subrange(i, i + 1) =~= nl);
                    assert(matches_at(s, nl, i));
                }
            }
        },
        None => {
            crate::text::lemma_find_from_none(s, nl, 0);
            assert forall|i: int| 0 <= i < first_line(s).len() implies first_line(s)[i] != '\n' by {
                if s[i] == '\n' {
                    assert(s.subrange(i, i + 1) =~= nl);
                    assert(matches_at(s, nl, i));
                }
            }
        },
    }
}

/// A sanitized proposal is a single line: it never holds a line break.
pub proof fn lemma_sanitized_is_one_line(raw: Seq<char>, old: Seq<char>)
    ensures
        spec_sanitize(raw, old) matches Some(s) ==> forall|i: int| 0 <= i < s.len() ==> s[i] != '\n',
{
    let s0 = trim(raw);
    let s1 = if starts_with(s0, "```"@) {
        trim(strip_trailing(strip_leading(strip_leading(s0, "```"@), "text"@), "```"@))
    } else {
        s0
    };
    let s2 = trim(strip_quotes(s1));
    lemma_first_line_one_line(s2);
    lemma_trim_keeps_out(first_line(s2), '\n');
}

/// Only the first line of a multi-line proposal is kept: for a plain
/// proposal (no fence, no surrounding quotes or blanks) made of a line `l`,
/// a line break and more text, the result is `l` trimmed, unless that is
/// empty, over 300 bytes or the current description.
pub proof fn lemma_sanitize_keeps_first_line(raw: Seq<char>, old: Seq<char>, l: Seq<char>, rest: Seq<char>)
    requires
        raw == l + seq!['\n'] + rest,
        l.len() > 0,
        forall|i: int| 0 <= i < l.len() ==> l[i] != '\n',
        !is_white(l[0]),
        l[0] != '"',
        !starts_with(l, "```"@),
        rest.len() > 0,
        !is_white(rest.last()),
        rest.last() != '"',
    ensures
        spec_sanitize(raw, old) == (if trim(l).len() == 0 || utf8_len(trim(l)) > 300 || trim(l) == old {
            None
        } else {
            Some(trim(l))
        }),
{
    reveal_strlit("```");
    let q = seq!['"'];
    let nl = seq!['\n'];
    assert(raw[0] == l[0]);
    assert(raw.last() == rest.last());
    assert(trim_start(raw) == raw);
    assert(trim_end(raw) == raw);
    assert(trim(raw) == raw);
    if starts_with(raw, "```"@) {
        assert(raw.subrange(0, 3) == "```"@);
        if l.len() < 3 {
            assert(raw[l.len() as int] == '\n');
            assert(raw.subrange(0, 3)[l.len() as int] == '\n');
        }
        assert(l.subrange(0, 3) =~= raw.subrange(0, 3));
    }
    assert(!starts_with(raw, q)) by {
        if starts_with(raw, q) {
            assert(raw.subrange(0, 1)[0] == raw[0]);
        }
    }
    assert(strip_leading(raw, q) == raw);
    assert(!ends_with(raw, q)) by {
        if ends_with(raw, q) {
            assert(raw.subrange(raw.len() - 1, raw.len() as int)[0] == raw.last());
        }
    }
    assert(strip_trailing(raw, q) == raw);
    assert(strip_quotes(raw) == raw);
    let k = l.len() as int;
    assert(raw.subrange(k, k + 1) =~= nl);
    assert forall|j: int| 0 <= j < k implies !matches_at(raw, nl, j) by {
        assert(raw[j] == l[j]);
        if matches_at(raw, nl, j) {
            assert(raw.subrange(j, j + 1)[0] == raw[j]);
        }
    }
    crate::text::lemma_find_first_at(raw, nl, 0, k);
    assert(first_line(raw) =~= l);
}

/// A one-line text without blanks or quotes at either end passes the quote
/// removal, the trimming and the cut to its first line unchanged.
proof fn lemma_plain_line_kept(l: Seq<char>)
    requires
        l.len() > 0,
        forall|i: int| 0 <= i < l.len() ==> l[i] != '\n',
        !is_white(l[0]),
        !is_white(l.last()),
        l[0] != '"',
        l.last() != '"',
    ensures
        trim(l) == l,
        trim(strip_quotes(l)) == l,
        trim(first_line(l)) == l,
{
    let q = seq!['"'];
    let nl = seq!['\n'];
    assert(trim_start(l) == l);
    assert(trim_end(l) == l);
    assert(!starts_with(l, q)) by {
        if starts_with(l, q) {
            assert(l.subrange(0, 1)[0] == l[0]);
        }
    }
    assert(strip_leading(l, q) == l);
    assert(!ends_with(l, q)) by {
        if ends_with(l, q) {
            assert(l.subrange(l.len() - 1, l.len() as int)[0] == l.last());
        }
    }
    assert(strip_trailing(l, q) == l);
    if find_from(l, nl, 0) is Some {
        crate::text::lemma_find_from_some(l, nl, 0);
        let k = find_from(l, nl, 0)->0;
        assert(l.subrange(k, k + 1)[0] == l[k]);
    }
    assert(first_line(l) == l);
}

/// A proposal wrapped in quotes is unwrapped: `"l"` gives `l`, for a line
/// `l` without blanks or quotes at either end (and not opening a fence).
pub proof fn lemma_sanitize_unquotes(raw: Seq<char>, old: Seq<char>, l: Seq<char>)
    requires
        raw == seq!['"'] + l + seq!['"'],
        l.len() > 0,
        forall|i: int| 0 <= i < l.len() ==> l[i] != '\n',
        !is_white(l[0]),
        !is_white(l.last()),
        l[0] != '"',
        l.last() != '"',
    ensures
        spec_sanitize(raw, old) == (if utf8_len(l) > 300 || l == old {
            None
        } else {
            Some(l)
        }),
{
    reveal_strlit("```");
    let q = seq!['"'];
    lemma_plain_line_kept(l);
    assert(raw[0] == '"');
    assert(raw.last() == '"');
    assert(trim_start(raw) == raw);
    assert(trim_end(raw) == raw);
    assert(!starts_with(raw, "```"@)) by {
        if starts_with(raw, "```"@) {
            assert(raw.subrange(0, 3)[0] == raw[0]);
        }
    }
    let lq = l + q;
    assert(raw.subrange(0, 1) =~= q);
    assert(raw.skip(1) =~= lq);
    assert(!starts_with(lq, q)) by {
        if starts_with(lq, q) {
            assert(lq.subrange(0, 1)[0] == lq[0]);
        }
    }
    assert(strip_leading(lq, q) == lq);
    assert(strip_leading(raw, q) == lq);
    assert(lq.subrange(lq.len() - 1, lq.len() as int) =~= q);
    assert(lq.take(lq.len() - 1) =~= l);
    assert(!ends_with(l, q)) by {
        if ends_with(l, q) {
            assert(l.subrange(l.len() - 1, l.len() as int)[0] == l.last());
        }
    }
    assert(strip_trailing(l, q) == l);
    assert(strip_trailing(lq, q) == l);
    assert(strip_quotes(raw) == l);
}

/// A proposal in a code fence is unwrapped: ```` ```l``` ```` gives `l`, for a
/// line `l` without blanks, quotes or backticks at either end that does not
/// open with a `t` (the fence's optional `text` tag).
pub proof fn lemma_sanitize_unfences(raw: Seq<char>, old: Seq<char>, l: Seq<char>)
    requires
        raw == "```"@ + l + "```"@,
        l.len() > 0,
        forall|i: int| 0 <= i < l.len() ==> l[i] != '\n',
        !is_white(l[0]),
        !is_white(l.last()),
        l[0] != '"',
        l.last() != '"',
        l[0] != '`',
        l[0] != 't',
        l.last() != '`',
    ensures
        spec_sanitize(raw, old) == (if utf8_len(l) > 300 || l == old {
            None
        } else {
            Some(l)
        }),
{
    reveal_strlit("```");
    reveal_strlit("text");
    let f = "```"@;
    lemma_plain_line_kept(l);
    assert(raw[0] == '`');
    assert(raw.last() == '`');
    assert(trim_start(raw) == raw);
    assert(trim_end(raw) == raw);
    assert(raw.subrange(0, 3) =~= f);
    assert(starts_with(raw, f));
    let lf = l + f;
    assert(raw.skip(3) =~= lf);
    assert(!starts_with(lf, f)) by {
        if starts_with(lf, f) {
            assert(lf.subrange(0, 3)[0] == lf[0]);
        }
    }
    assert(strip_leading(lf, f) == lf);
    assert(strip_leading(raw, f) == lf);
    assert(!starts_with(lf, "text"@)) by {
        if starts_with(lf, "text"@) {
            assert(lf.subrange(0, 4)[0] == lf[0]);
        }
    }
    assert(strip_leading(lf, "text"@) == lf);
    assert(lf.subrange(lf.len() - 3, lf.len() as int) =~= f);
    assert(lf.take(lf.len() - 3) =~= l);
    assert(!ends_with(l, f)) by {
        if ends_with(l, f) {
            assert(l.subrange(l.len() - 3, l.len() as int)[2] == l.last());
        }
    }
    assert(strip_trailing(l, f) == l);
    assert(strip_trailing(lf, f) == l);
}

/// A prefix never takes more bytes than the whole text.
pub proof fn lemma_utf8_len_prefix(s: Seq<char>, k: int)
    requires
        0 <= k <= s.len(),
    ensures
        utf8_len(s.take(k)) <= utf8_len(s),
    decreases s.len(),
{
    if k < s.len() {
        lemma_utf8_len_prefix(s.drop_last(), k);
        assert(s.drop_last().take(k) == s.take(k));
    } else {
        assert(s.take(k) == s);
    }
}

/// A rewrite of `manifest`'s description: the new description and the diff
/// log entry recording it. Only the description changes.
pub fn rewrite_description(manifest: SkillManifest, new_desc: String, ts_ms: u64) -> (r: (
    SkillManifest,
    EvolutionEntry,
))
    ensures
        r.0 == (SkillManifest { description: new_desc, ..manifest }),
        r.1.ts_ms == ts_ms,
        r.1.skill == manifest.name,
        r.1.old == manifest.description,
        r.1.new == new_desc,
        r.1.kind@ == "evolve"@,
{
    let mut manifest = manifest;
    let entry = EvolutionEntry {
        ts_ms,
        skill: manifest.name.clone(),
        old: manifest.description.clone(),
        new: new_desc.clone(),
        kind: "evolve".to_string(),
    };
    manifest.description = new_desc;
    (manifest, entry)
}

// ── The evolution pass as a state machine ────────────────────────────────────

/// The text `format!("{:?}", s)` gives for a string: quoted, with Rust's
/// escapes (named, not stated).
pub uninterp spec fn debug_text_of(s: Seq<char>) -> Seq<char>;

/// Formats a string with its `Debug` implementation (`<str as Debug>::fmt`).
/// Claims that the text is a function of the string, named
/// `debug_text_of`.
#[verifier::external_body]
fn debug_quoted(s: &str) -> (r: String)
    ensures
        r@ == debug_text_of(s@),
{
    format!("{:?}", s)
}

/// The name `Debug` prints for an outcome.
pub open spec fn outcome_text(o: Outcome) -> Seq<char> {
    match o {
        Outcome::Success => "Success"@,
        Outcome::Failure => "Failure"@,
    }
}

/// The usage trace of one run: its trimmed objective and its outcome.
pub open spec fn usage_line(ep: Episode) -> Seq<char> {
    "- objective: "@ + debug_text_of(trim(ep.objective@)) + "; outcome: "@ + outcome_text(ep.outcome)
}

/// The usage traces of the first five runs among `recent` that used
/// `skill`, in order.
pub open spec fn usage_lines(recent: Seq<Episode>, skill: Seq<char>) -> Seq<Seq<char>>
    decreases recent.len(),
{
    if recent.len() == 0 {
        seq![]
    } else {
        let before = usage_lines(recent.drop_last(), skill);
        if before.len() < 5 && spec_uses_skill(recent.last(), skill) {
            before.push(usage_line(recent.last()))
        } else {
            before
        }
    }
}

proof fn lemma_usage_lines_bounded(recent: Seq<Episode>, skill: Seq<char>)
    ensures
        usage_lines(recent, skill).len() <= 5,
    decreases recent.len(),
{
    if recent.len() > 0 {
        lemma_usage_lines_bounded(recent.drop_last(), skill);
    }
}

fn usage_lines_of(recent: &[Episode], skill: &str) -> (r: Vec<String>)
    ensures
        r@.map_values(|l: String| l@) == usage_lines(recent@, skill@),
{
    let mut r: Vec<String> = Vec::new();
    let mut i: usize = 0;
    while i < recent.len()
        invariant
            i <= recent.len(),
            r@.map_values(|l: String| l@) == usage_lines(recent@.take(i as int), skill@),
        decreases recent.len() - i,
    {
        let ghost t = recent@.take(i + 1);
        assert(t.drop_last() =~= recent@.take(i as int));
        if r.len() < 5 && uses_skill(&recent[i], skill) {
            let trimmed_objective = string_of(&trimmed(&chars_of(recent[i].objective.as_str())));
            let outcome = match recent[i].outcome {
                Outcome::Success => "Success",
                Outcome::Failure => "Failure",
            };
            let line = join4("- objective: ", debug_quoted(trimmed_objective.as_str()).as_str(), "; outcome: ", outcome);
            let ghost before = r@;
            r.push(line);
            assert(r@.map_values(|l: String| l@) =~= before.map_values(|l: String| l@).push(
                usage_line(recent@[i as int]),
            ));
        }
        i = i + 1;
    }
    assert(recent@.take(recent@.len() as int) =~= recent@);
    r
}

/// The prompt asking the model to improve `m`'s description from its
/// observed uses `usages`.
pub open spec fn evolve_prompt(m: SkillManifest, usages: Seq<Seq<char>>) -> Seq<char> {
    "You improve tool descriptions for an AI agent. A good description makes the agent select the tool exactly when appropriate — concrete, specific, one sentence, under 240 characters, no marketing language.\n\nTool name: "@ + m.name@ + "\nCurrent description: "@ + m.description@ + "\nParameter schema: "@
        + json_text_of(json_view(m.parameters)) + "\n\nObserved real uses:\n"@ + join_lines(usages)
        + "\n\nReply with ONLY the improved description text (no quotes, no preamble). If the current description is already ideal, reply with it unchanged."@
}

fn prompt_for(m: &SkillManifest, usages: &Vec<String>) -> (r: String)
    ensures
        r@ == evolve_prompt(*m, usages@.map_values(|l: String| l@)),
{
    let a = join6(
        "You improve tool descriptions for an AI agent. A good description makes the agent select the tool exactly when appropriate — concrete, specific, one sentence, under 240 characters, no marketing language.\n\nTool name: ",
        m.name.as_str(),
        "\nCurrent description: ",
        m.description.as_str(),
        "\nParameter schema: ",
        json_text(&m.parameters).as_str(),
    );
    join4(a.as_str(), "\n\nObserved real uses:\n", join_lines_of(usages).as_str(), "\n\nReply with ONLY the improved description text (no quotes, no preamble). If the current description is already ideal, reply with it unchanged.")
}

/// Where an evolution pass stands.
#[derive(Debug, Clone, Copy, PartialEq, Eq, Structural)]
pub enum EvolvePhase {
    /// Waiting for the model's answer about the skill in hand.
    Ask,
    /// Waiting for the install of the rewritten manifest.
    Install,
    /// Waiting for the diff log entry to be appended.
    Log,
    /// No skill is left, or the pass made all the rewrites it may.
    Done,
}

/// What the caller reports back.
#[derive(Debug)]
pub enum EvolveEvent {
    /// The model's answer (or why the call failed), and the time in ms.
    Answered(Result<String, String>, u64),
    /// Whether the install succeeded.
    Installed(bool),
    /// The log entry was appended.
    Logged,
}

/// What the caller does next.
#[derive(Debug)]
pub enum EvolveAction {
    /// Ask the model this prompt.
    Ask { prompt: String },
    /// Install the manifest in hand (its description rewritten).
    Install,
    /// Append the entry in hand to the diff log.
    Log,
    /// The pass is over.
    Finish,
    /// The event did not answer what was asked; nothing changed.
    Ignored,
}

/// The state of an evolution pass: its report so far, the learned skills
/// still to consider (the next one last), the skill in hand and, once
/// rewritten, its diff log entry.
#[derive(Debug)]
pub struct EvolvePass {
    pub report: EvolveReport,
    pub waiting: Vec<SkillManifest>,
    pub phase: EvolvePhase,
    pub current: Option<SkillManifest>,
    pub entry: Option<EvolutionEntry>,
}

/// What stays true through a pass: no more rewrites than the cap; only
/// learned skills are considered; a skill is in hand in every phase but
/// `Done`, and a rewritten one (with its entry) while it is installed.
pub open spec fn evolve_wf(p: EvolvePass, max_per_pass: usize) -> bool {
    &&& p.report.rewritten@.len() <= max_per_pass
    &&& (p.phase == EvolvePhase::Done) == (p.current is None)
    &&& p.phase == EvolvePhase::Done ==> p.waiting@.len() == 0
    &&& (p.phase == EvolvePhase::Ask || p.phase == EvolvePhase::Install) ==> p.report.rewritten@.len() < max_per_pass
    &&& p.phase == EvolvePhase::Install ==> p.entry is Some
    &&& p.phase == EvolvePhase::Log ==> p.entry is Some
    &&& forall|k: int| 0 <= k < p.waiting@.len() ==> starts_with((#[trigger] p.waiting@[k]).name@, "learned_"@)
    &&& p.current matches Some(m) ==> starts_with(m.name@, "learned_"@)
}

/// The phase an event answers.
pub open spec fn evolve_answers(phase: EvolvePhase, event: EvolveEvent) -> bool {
    match event {
        EvolveEvent::Answered(..) => phase == EvolvePhase::Ask,
        EvolveEvent::Installed(_) => phase == EvolvePhase::Install,
        EvolveEvent::Logged => phase == EvolvePhase::Log,
    }
}

impl EvolvePass {
    /// Takes up the next learned skill that some recent run used, counting
    /// those considered and skipped on the way, and asks the model about it;
    /// stops once the pass made all the rewrites it may.
    fn advance(&mut self, max_per_pass: usize, recent: &[Episode]) -> (a: EvolveAction)
        requires
            old(self).current is None,
            old(self).report.rewritten@.len() <= max_per_pass,
            forall|k: int| 0 <= k < old(self).waiting@.len() ==> starts_with((#[trigger] old(self).waiting@[k]).name@, "learned_"@),
        ensures
            evolve_wf(*final(self), max_per_pass),
            final(self).report.rewritten == old(self).report.rewritten,
            final(self).report.considered >= old(self).report.considered,
            final(self).report.skipped >= old(self).report.skipped,
            final(self).phase == EvolvePhase::Ask || final(self).phase == EvolvePhase::Done,
            final(self).phase == EvolvePhase::Done ==> a is Finish,
            final(self).phase == EvolvePhase::Ask ==> (final(self).current matches Some(m) && (a matches EvolveAction::Ask { prompt }
                && usage_lines(recent@, m.name@).len() > 0 && prompt@ == evolve_prompt(m, usage_lines(recent@, m.name@)))),
    {
        loop
            invariant
                self.current is None,
                self.report.rewritten == old(self).report.rewritten,
                self.report.considered >= old(self).report.considered,
                self.report.skipped >= old(self).report.skipped,
                self.report.rewritten@.len() <= max_per_pass,
                forall|k: int| 0 <= k < self.waiting@.len() ==> starts_with((#[trigger] self.waiting@[k]).name@, "learned_"@),
            decreases self.waiting@.len(),
        {
            if self.report.rewritten.len() >= max_per_pass {
                self.waiting = Vec::new();
                self.phase = EvolvePhase::Done;
                return EvolveAction::Finish;
            }
            let ghost w = self.waiting@;
            match self.waiting.pop() {
                None => {
                    self.phase = EvolvePhase::Done;
                    return EvolveAction::Finish;
                },
                Some(m) => {
                    assert(m == w.last());
                    assert(forall|k: int| 0 <= k < self.waiting@.len() ==> self.waiting@[k] == w[k]);
                    if self.report.considered < usize::MAX {
                        self.report.considered = self.report.considered + 1;
                    }
                    let usages = usage_lines_of(recent, m.name.as_str());
                    if usages.len() == 0 {
                        if self.report.skipped < usize::MAX {
                            self.report.skipped = self.report.skipped + 1;
                        }
                    } else {
                        let prompt = prompt_for(&m, &usages);
                        self.current = Some(m);
                        self.phase = EvolvePhase::Ask;
                        return EvolveAction::Ask { prompt };
                    }
                },
            }
        }
    }
}

/// Starts an evolution pass over the installed skills `manifests`: only the
/// learned ones are considered, in order.
pub fn begin_evolve(evolver: &DescriptionEvolver, manifests: Vec<SkillManifest>, recent: &[Episode]) -> (r: (
    EvolvePass,
    EvolveAction,
))
    ensures
        evolve_wf(r.0, evolver.spec_max_per_pass()),
        r.0.report.rewritten@.len() == 0,
        r.0.phase == EvolvePhase::Ask ==> (r.0.current matches Some(m) && (r.1 matches EvolveAction::Ask { prompt }
            && usage_lines(recent@, m.name@).len() > 0 && prompt@ == evolve_prompt(m, usage_lines(recent@, m.name@)))),
{
    let mut learned: Vec<SkillManifest> = Vec::new();
    let mut rest = manifests;
    while rest.len() > 0
        invariant
            forall|k: int| 0 <= k < learned@.len() ==> starts_with((#[trigger] learned@[k]).name@, "learned_"@),
        decreases rest@.len(),
    {
        match rest.pop() {
            Some(m) => {
                if is_learned(m.name.as_str()) {
                    learned.push(m);
                }
            },
            None => {},
        }
    }
    let mut pass = EvolvePass {
        report: EvolveReport::default(),
        waiting: learned,
        phase: EvolvePhase::Done,
        current: None,
        entry: None,
    };
    let a = pass.advance(evolver.max_per_pass(), recent);
    (pass, a)
}

/// One step of an evolution pass: takes what the caller reports for the
/// skill in hand and says what to do next. A model answer that sanitizes
/// to a new description rewrites the skill's description (nothing else)
/// for install; an install that succeeds is logged and counted as a
/// rewrite; a failed call, a rejected proposal or a failed install skips
/// the skill. The pass stops at its cap of rewrites.
pub fn evolve_step(evolver: &DescriptionEvolver, recent: &[Episode], pass: EvolvePass, event: EvolveEvent) -> (r: (
    EvolvePass,
    EvolveAction,
))
    requires
        evolve_wf(pass, evolver.spec_max_per_pass()),
    ensures
        evolve_wf(r.0, evolver.spec_max_per_pass()),
        !evolve_answers(pass.phase, event) ==> r.1 is Ignored && r.0 == pass,
        r.1 matches EvolveAction::Ask { prompt } ==> (r.0.current matches Some(m) && usage_lines(recent@, m.name@).len() > 0
            && prompt@ == evolve_prompt(m, usage_lines(recent@, m.name@))),
        r.1 is Install ==> pass.phase == EvolvePhase::Ask && (event matches EvolveEvent::Answered(Ok(a), now)
            && (spec_sanitize(a@, pass.current->0.description@) matches Some(d)
            && (r.0.current matches Some(m) && m == (SkillManifest { description: m.description, ..pass.current->0 })
            && m.description@ == d && (r.0.entry matches Some(e) && e.ts_ms == now && e.skill == pass.current->0.name
            && e.old == pass.current->0.description && e.new == m.description && e.kind@ == "evolve"@)))),
        r.1 is Log ==> pass.phase == EvolvePhase::Install && event == EvolveEvent::Installed(true),
        r.0.report.considered >= pass.report.considered,
        r.0.report.skipped >= pass.report.skipped,
        (pass.phase == EvolvePhase::Ask && event matches EvolveEvent::Answered(Err(_), _))
            ==> r.0.report.skipped > pass.report.skipped || pass.report.skipped == usize::MAX,
        r.0.report.rewritten@ == if pass.phase == EvolvePhase::Install && event == EvolveEvent::Installed(true) {
            pass.report.rewritten@.push(pass.current->0.name)
        } else {
            pass.report.rewritten@
        },
{
    let max = evolver.max_per_pass();
    let mut p = pass;
    match event {
        EvolveEvent::Answered(answer, now) => {
            if p.phase != EvolvePhase::Ask {
                return (p, EvolveAction::Ignored);
            }
            let m = match p.current.take() {
                Some(m) => m,
                None => return (p, EvolveAction::Ignored),
            };
            let proposal = match answer {
                Ok(a) => sanitize_proposal(a.as_str(), m.description.as_str()),
                Err(_) => None,
            };
            match proposal {
                Some(d) => {
                    let (updated, entry) = rewrite_description(m, d, now);
                    p.current = Some(updated);
                    p.entry = Some(entry);
                    p.phase = EvolvePhase::Install;
                    (p, EvolveAction::Install)
                },
                None => {
                    if p.report.skipped < usize::MAX {
                        p.report.skipped = p.report.skipped + 1;
                    }
                    let a = p.advance(max, recent);
                    (p, a)
                },
            }
        },
        EvolveEvent::Installed(ok) => {
            if p.phase != EvolvePhase::Install {
                return (p, EvolveAction::Ignored);
            }
            if ok {
                let name = match &p.current {
                    Some(m) => m.name.clone(),
                    None => return (p, EvolveAction::Ignored),
                };
                p.report.rewritten.push(name);
                p.phase = EvolvePhase::Log;
                (p, EvolveAction::Log)
            } else {
                p.current = None;
                p.entry = None;
                if p.report.skipped < usize::MAX {
                    p.report.skipped = p.report.skipped + 1;
                }
                let a = p.advance(max, recent);
                (p, a)
            }
        },
        EvolveEvent::Logged => {
            if p.phase != EvolvePhase::Log {
                return (p, EvolveAction::Ignored);
            }
            p.current = None;
            p.entry = None;
            let a = p.advance(max, recent);
            (p, a)
        },
    }
}

} // verus!
