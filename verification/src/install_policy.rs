//! Skill-install security policy.
//!
//! Defense layers, applied in order by [`InstallPolicy::evaluate`]:
//!
//! 1. **Allowlist (vetted mirror mode)** — when configured, only named skills
//!    may be installed at all.
//! 2. **Version pinning** — a pinned skill installs only at its pinned version.
//! 3. **Checksum verification** — when the registry entry carries a `sha256`
//!    (or the operator requires one), the downloaded manifest bytes must match.
//! 4. **Static inspection** — external URLs outside the registry host,
//!    `Shell`-kind execution, and download-style instruction language are
//!    surfaced as [`InstallFlag`]s in the approval prompt. Flags inform the
//!    operator; they do not auto-block.
//! 5. **Operator approval** — no install proceeds without explicit consent
//!    (default-on).
//! 6. **Audit log** — every decision is recorded with the manifest hash.

use sha2::Digest;
use vstd::prelude::*;

use crate::json::{json_as_str, json_get, JsonValue};
use crate::text::{
    char_is_white, chars_eq_ignore_ascii_case, chars_of, concat_str, decimal, eq_ignore_ascii_case, extend_str, find, find_from, has_prefix, is_white, lemma_find_from_some,
    lowercase, lowercase_chars, push_decimal, push_padded_decimal, slice_chars, zero_pad, starts_with, str_eq, string_of, chars_eq, join3, join6,
};

verus! {

broadcast use vstd::string::group_string_axioms;

// ── Flags from static inspection ─────────────────────────────────────────────

/// A single security-relevant observation about a skill manifest.
#[derive(Debug, Clone, PartialEq, Eq)]
pub enum InstallFlag {
    /// The manifest references a URL on a host other than the registry.
    ExternalUrl { url: String, location: String },
    /// The skill executes shell commands.
    ShellExecution { command: String },
    /// The description/instructions contain download-style language.
    DownloadInstruction { snippet: String },
    /// The catalogue entry is not marked verified by the registry.
    Unverified,
    /// Checksum was expected but the entry provided none.
    MissingChecksum,
}

/// The content of an [`InstallFlag`].
pub enum FlagView {
    ExternalUrl { url: Seq<char>, location: Seq<char> },
    ShellExecution { command: Seq<char> },
    DownloadInstruction { snippet: Seq<char> },
    Unverified,
    MissingChecksum,
}

impl View for InstallFlag {
    type V = FlagView;

    open spec fn view(&self) -> FlagView {
        match self {
            InstallFlag::ExternalUrl { url, location } => FlagView::ExternalUrl {
                url: url@,
                location: location@,
            },
            InstallFlag::ShellExecution { command } => FlagView::ShellExecution {
                command: command@,
            },
            InstallFlag::DownloadInstruction { snippet } => FlagView::DownloadInstruction {
                snippet: snippet@,
            },
            InstallFlag::Unverified => FlagView::Unverified,
            InstallFlag::MissingChecksum => FlagView::MissingChecksum,
        }
    }
}

pub open spec fn flags_view(flags: Seq<InstallFlag>) -> Seq<FlagView> {
    flags.map_values(|f: InstallFlag| f@)
}

/// The one-line approval-prompt summary of a flag.
pub open spec fn flag_summary(f: FlagView) -> Seq<char> {
    match f {
        FlagView::ExternalUrl { url, location } => "references external URL "@ + url + " (in "@
            + location + ")"@,
        FlagView::ShellExecution { command } => "executes shell command: "@ + command,
        FlagView::DownloadInstruction { snippet } =>
            "instruction text suggests fetching content: \""@ + snippet + "\""@,
        FlagView::Unverified => "catalogue entry is not registry-verified"@,
        FlagView::MissingChecksum => "no checksum available for verification"@,
    }
}

impl InstallFlag {
    /// Human-readable one-line summary for approval prompts.
    pub fn summary(&self) -> (s: String)
        ensures
            s@ == flag_summary(self@),
    {
        match self {
            InstallFlag::ExternalUrl { url, location } => {
                let mut v = chars_of("references external URL ");
                extend_str(&mut v, url.as_str());
                extend_str(&mut v, " (in ");
                extend_str(&mut v, location.as_str());
                extend_str(&mut v, ")");
                string_of(&v)
            },
            InstallFlag::ShellExecution { command } => concat_str(
                "executes shell command: ",
                command.as_str(),
            ),
            InstallFlag::DownloadInstruction { snippet } => {
                let mut v = chars_of("instruction text suggests fetching content: \"");
                extend_str(&mut v, snippet.as_str());
                extend_str(&mut v, "\"");
                string_of(&v)
            },
            InstallFlag::Unverified => string_of(&chars_of("catalogue entry is not registry-verified")),
            InstallFlag::MissingChecksum => string_of(
                &chars_of("no checksum available for verification"),
            ),
        }
    }
}

// ── Host extraction ──────────────────────────────────────────────────────────

/// The first index `>= i` holding `/`, `?` or `#` (`s.len()` if none).
pub open spec fn first_host_end(s: Seq<char>, i: int) -> int
    decreases s.len() - i,
{
    if i < 0 || i >= s.len() {
        s.len() as int
    } else if is_host_end(s[i]) {
        i
    } else {
        first_host_end(s, i + 1)
    }
}

/// The first index `>= i` holding `c` (`s.len()` if none).
pub open spec fn first_of(s: Seq<char>, c: char, i: int) -> int
    decreases s.len() - i,
{
    if i < 0 || i >= s.len() {
        s.len() as int
    } else if s[i] == c {
        i
    } else {
        first_of(s, c, i + 1)
    }
}

/// The index just after the last `c` in `s[..i]` (0 if there is none).
pub open spec fn after_last_index(s: Seq<char>, c: char, i: int) -> int
    decreases i,
{
    if i <= 0 {
        0
    } else if s[i - 1] == c {
        i
    } else {
        after_last_index(s, c, i - 1)
    }
}

pub open spec fn is_host_end(c: char) -> bool {
    c == '/' || c == '?' || c == '#'
}

/// The URL after its `https://` or `http://` scheme.
pub open spec fn strip_scheme(u: Seq<char>) -> Option<Seq<char>> {
    if starts_with(u, "https://"@) {
        Some(u.skip("https://"@.len() as int))
    } else if starts_with(u, "http://"@) {
        Some(u.skip("http://"@.len() as int))
    } else {
        None
    }
}

/// The host of an `http(s)://` URL: the authority (before the first `/`, `?`
/// or `#`) without user info (up to the last `@`) and without port (from the
/// first `:`). `None` for other URLs or an empty host.
pub open spec fn spec_host_of(u: Seq<char>) -> Option<Seq<char>> {
    match strip_scheme(u) {
        None => None,
        Some(rest) => {
            let authority = rest.take(first_host_end(rest, 0));
            let hostport = authority.skip(
                after_last_index(authority, '@', authority.len() as int),
            );
            let host = hostport.take(first_of(hostport, ':', 0));
            if host.len() == 0 {
                None
            } else {
                Some(host)
            }
        },
    }
}

pub open spec fn opt_str_view(o: Option<String>) -> Option<Seq<char>> {
    match o {
        Some(s) => Some(s@),
        None => None,
    }
}

/// Minimal URL host extraction.
pub fn host_of(url: &str) -> (r: Option<String>)
    ensures
        opt_str_view(r) == spec_host_of(url@),
{
    let u = chars_of(url);
    let https = chars_of("https://");
    let http = chars_of("http://");
    let rest: Vec<char> = if has_prefix(&u, &https) {
        slice_chars(&u, https.len(), u.len())
    } else if has_prefix(&u, &http) {
        slice_chars(&u, http.len(), u.len())
    } else {
        return None;
    };
    assert(strip_scheme(url@) == Some(rest@));
    let mut e: usize = 0;
    while e < rest.len() && !(rest[e] == '/' || rest[e] == '?' || rest[e] == '#')
        invariant
            e <= rest.len(),
            first_host_end(rest@, 0) == first_host_end(rest@, e as int),
        decreases rest.len() - e,
    {
        e = e + 1;
    }
    let ghost authority = rest@.take(e as int);
    assert(rest@.take(first_host_end(rest@, 0)) == authority);
    let mut a: usize = e;
    while a > 0 && rest[a - 1] != '@'
        invariant
            a <= e <= rest.len(),
            authority == rest@.take(e as int),
            after_last_index(authority, '@', e as int) == after_last_index(
                authority,
                '@',
                a as int,
            ),
        decreases a,
    {
        assert(authority[a - 1] == rest@[a - 1]);
        a = a - 1;
    }
    proof {
        if a > 0 {
            assert(authority[a - 1] == rest@[a - 1]);
        }
    }
    let ghost hostport = authority.skip(a as int);
    assert(hostport == rest@.subrange(a as int, e as int));
    let mut c: usize = a;
    while c < e && rest[c] != ':'
        invariant
            a <= c <= e <= rest.len(),
            hostport == rest@.subrange(a as int, e as int),
            first_of(hostport, ':', 0) == first_of(hostport, ':', c - a),
        decreases e - c,
    {
        assert(hostport[c - a] == rest@[c as int]);
        c = c + 1;
    }
    proof {
        if c < e {
            assert(hostport[c - a] == rest@[c as int]);
        }
    }
    assert(hostport.take(first_of(hostport, ':', 0)) == rest@.subrange(a as int, c as int));
    if c == a {
        None
    } else {
        Some(string_of(&slice_chars(&rest, a, c)))
    }
}

// ── URL extraction ───────────────────────────────────────────────────────────

/// Characters that end a URL in free text.
pub open spec fn is_url_end(c: char) -> bool {
    is_white(c) || c == '"' || c == '\'' || c == ')' || c == '>'
}

/// The first index `>= i` that ends a URL (`s.len()` if none).
pub open spec fn first_url_end(s: Seq<char>, i: int) -> int
    decreases s.len() - i,
{
    if i < 0 || i >= s.len() {
        s.len() as int
    } else if is_url_end(s[i]) {
        i
    } else {
        first_url_end(s, i + 1)
    }
}

/// `s` without trailing `.` and `,` characters.
pub open spec fn trim_trailing_punct(s: Seq<char>) -> Seq<char>
    decreases s.len(),
{
    if s.len() > 0 && (s.last() == '.' || s.last() == ',') {
        trim_trailing_punct(s.drop_last())
    } else {
        s
    }
}

/// The URL starting at `pos`: up to the first URL-ending character, without
/// trailing `.`/`,`.
pub open spec fn url_at(t: Seq<char>, pos: int) -> Seq<char> {
    let cand = t.skip(pos);
    trim_trailing_punct(cand.take(first_url_end(cand, 0)))
}

/// URLs starting with scheme `p`, at or after index `i`, in order.
pub open spec fn urls_from(t: Seq<char>, p: Seq<char>, i: int) -> Seq<Seq<char>>
    decreases t.len() + 1 - i,
{
    if p.len() == 0 || i < 0 || i > t.len() {
        seq![]
    } else {
        match find_from(t, p, i) {
            Some(pos) => {
                proof {
                    lemma_find_from_some(t, p, i);
                }
                seq![url_at(t, pos)] + urls_from(t, p, pos + p.len())
            },
            None => seq![],
        }
    }
}

/// All `http://` URLs of a text, then all its `https://` URLs.
pub open spec fn spec_extract_urls(t: Seq<char>) -> Seq<Seq<char>> {
    urls_from(t, "http://"@, 0) + urls_from(t, "https://"@, 0)
}

pub open spec fn strings_view(v: Seq<String>) -> Seq<Seq<char>> {
    v.map_values(|s: String| s@)
}

/// The URL starting at `pos` of `t`.
fn url_at_exec(t: &[char], pos: usize) -> (r: String)
    requires
        pos <= t.len(),
    ensures
        r@ == url_at(t@, pos as int),
{
    let cand = slice_chars(t, pos, t.len());
    assert(cand@ == t@.skip(pos as int));
    let mut e: usize = 0;
    while e < cand.len() && !(char_is_white(cand[e]) || cand[e] == '"' || cand[e] == '\''
        || cand[e] == ')' || cand[e] == '>')
        invariant
            e <= cand.len(),
            first_url_end(cand@, 0) == first_url_end(cand@, e as int),
        decreases cand.len() - e,
    {
        e = e + 1;
    }
    let ghost body = cand@.take(e as int);
    let mut k: usize = e;
    while k > 0 && (cand[k - 1] == '.' || cand[k - 1] == ',')
        invariant
            k <= e <= cand.len(),
            body == cand@.take(e as int),
            trim_trailing_punct(body) == trim_trailing_punct(cand@.take(k as int)),
        decreases k,
    {
        assert(cand@.take(k as int).drop_last() == cand@.take(k - 1));
        k = k - 1;
    }
    proof {
        if k > 0 {
            assert(cand@.take(k as int).last() == cand@[k - 1]);
        }
    }
    string_of(&slice_chars(&cand, 0, k))
}

/// Appends the URLs starting with scheme `p` to `out`.
fn push_urls(t: &[char], p: &[char], out: &mut Vec<String>)
    requires
        p.len() > 0,
    ensures
        strings_view(final(out)@) == strings_view(old(out)@) + urls_from(t@, p@, 0),
{
    let mut i: usize = 0;
    while i <= t.len()
        invariant
            p.len() > 0,
            strings_view(old(out)@) + urls_from(t@, p@, 0) == strings_view(out@) + urls_from(
                t@,
                p@,
                i as int,
            ),
        decreases t.len() + 1 - i,
    {
        match find(t, p, i) {
            Some(pos) => {
                proof {
                    lemma_find_from_some(t@, p@, i as int);
                }
                let u = url_at_exec(t, pos);
                let ghost before = strings_view(out@);
                out.push(u);
                assert(strings_view(out@) == before.push(u@));
                assert(urls_from(t@, p@, i as int) == seq![u@] + urls_from(
                    t@,
                    p@,
                    pos + p.len(),
                ));
                assert(before + (seq![u@] + urls_from(t@, p@, pos + p.len())) == before.push(u@)
                    + urls_from(t@, p@, pos + p.len()));
                if pos + p.len() > t.len() {
                    assert(urls_from(t@, p@, pos + p.len()) == Seq::<Seq<char>>::empty());
                    assert(strings_view(out@) + Seq::<Seq<char>>::empty() == strings_view(out@));
                    return ;
                }
                i = pos + p.len();
            },
            None => {
                assert(urls_from(t@, p@, i as int) == Seq::<Seq<char>>::empty());
                assert(strings_view(out@) + Seq::<Seq<char>>::empty() == strings_view(out@));
                return ;
            },
        }
    }
    assert(urls_from(t@, p@, i as int) == Seq::<Seq<char>>::empty());
    assert(strings_view(out@) + Seq::<Seq<char>>::empty() == strings_view(out@));
}

/// Extract `http://` / `https://` URLs from free text.
pub fn extract_urls(text: &str) -> (urls: Vec<String>)
    ensures
        strings_view(urls@) == spec_extract_urls(text@),
{
    let t = chars_of(text);
    let mut urls: Vec<String> = Vec::new();
    let http = chars_of("http://");
    let https = chars_of("https://");
    proof {
        reveal_strlit("http://");
        reveal_strlit("https://");
    }
    push_urls(&t, &http, &mut urls);
    push_urls(&t, &https, &mut urls);
    assert(strings_view(Seq::<String>::empty()) == Seq::<Seq<char>>::empty());
    assert(Seq::<Seq<char>>::empty() + urls_from(t@, http@, 0) == urls_from(t@, http@, 0));
    urls
}

// ── Download-style language ──────────────────────────────────────────────────

/// Bytes in the UTF-8 encoding of `c`.
pub open spec fn utf8_width(c: char) -> nat {
    if (c as u32) < 0x80 {
        1
    } else if (c as u32) < 0x800 {
        2
    } else if (c as u32) < 0x10000 {
        3
    } else {
        4
    }
}

/// Bytes in the UTF-8 encoding of `s`.
pub open spec fn utf8_len(s: Seq<char>) -> nat
    decreases s.len(),
{
    if s.len() == 0 {
        0
    } else {
        utf8_len(s.drop_last()) + utf8_width(s.last())
    }
}

/// The end (a character index) of the snippet starting at `pos`: the text up
/// to the first character boundary at least 60 bytes after `pos`, or the end.
pub open spec fn snippet_end(s: Seq<char>, pos: int, k: int) -> int
    decreases s.len() - k,
{
    if k < pos || k >= s.len() {
        s.len() as int
    } else if utf8_len(s.subrange(pos, k)) >= 60 {
        k
    } else {
        snippet_end(s, pos, k + 1)
    }
}

/// The download-style phrases looked for, in order.
pub open spec fn download_patterns() -> Seq<Seq<char>> {
    seq!["download"@, "curl "@, "wget "@, "fetch from"@, "install from"@, "pip install"@]
}

/// The snippet for the first phrase (in [`download_patterns`] order, from
/// index `k`) that occurs in the lowercased text `l`.
pub open spec fn download_from(l: Seq<char>, k: int) -> Option<Seq<char>>
    decreases 6 - k,
{
    if k < 0 || k >= 6 {
        None
    } else {
        match find_from(l, download_patterns()[k], 0) {
            Some(pos) => Some(l.subrange(pos, snippet_end(l, pos, pos))),
            None => download_from(l, k + 1),
        }
    }
}

/// Download-style instruction language in `t`: the matching snippet of the
/// lowercased text, if any.
pub open spec fn spec_download_language(t: Seq<char>) -> Option<Seq<char>> {
    download_from(lowercase(t), 0)
}

pub(crate) fn char_utf8_width(c: char) -> (w: u64)
    ensures
        w == utf8_width(c),
{
    let u: u32 = c as u32;
    if u < 0x80 {
        1
    } else if u < 0x800 {
        2
    } else if u < 0x10000 {
        3
    } else {
        4
    }
}

/// The snippet of `l` starting at `pos`.
fn snippet_at(l: &[char], pos: usize) -> (r: String)
    requires
        pos <= l.len(),
    ensures
        r@ == l@.subrange(pos as int, snippet_end(l@, pos as int, pos as int)),
{
    let mut k: usize = pos;
    let mut bytes: u64 = 0;
    assert(l@.subrange(pos as int, pos as int) =~= Seq::<char>::empty());
    while k < l.len() && bytes < 60
        invariant
            pos <= k <= l.len(),
            bytes == utf8_len(l@.subrange(pos as int, k as int)),
            bytes < 64,
            snippet_end(l@, pos as int, pos as int) == snippet_end(l@, pos as int, k as int),
        decreases l.len() - k,
    {
        let w = char_utf8_width(l[k]);
        assert(l@.subrange(pos as int, k + 1).drop_last() == l@.subrange(pos as int, k as int));
        bytes = bytes + w;
        k = k + 1;
    }
    string_of(&slice_chars(l, pos, k))
}

/// Detect download-style instruction language; returns the matching snippet
/// (taken from the lowercased text).
pub fn download_language(text: &str) -> (r: Option<String>)
    ensures
        opt_str_view(r) == spec_download_language(text@),
{
    let t = chars_of(text);
    let lower = lowercase_chars(&t);
    let patterns: [&str; 6] = ["download", "curl ", "wget ", "fetch from", "install from", "pip install"];
    let mut k: usize = 0;
    while k < 6
        invariant
            k <= 6,
            lower@ == lowercase(text@),
            patterns@ == seq!["download", "curl ", "wget ", "fetch from", "install from", "pip install"],
            download_from(lower@, 0) == download_from(lower@, k as int),
        decreases 6 - k,
    {
        let p = chars_of(patterns[k]);
        assert(p@ == download_patterns()[k as int]);
        match find(&lower, &p, 0) {
            Some(pos) => {
                proof {
                    lemma_find_from_some(lower@, p@, 0);
                }
                return Some(snippet_at(&lower, pos));
            },
            None => {},
        }
        k = k + 1;
    }
    None
}

// ── Inspection ───────────────────────────────────────────────────────────────

/// Every string in `v`, with a location label (`path`, `path[i]`, `path.key`),
/// in document order.
pub open spec fn collect_strings_spec(v: JsonValue, path: Seq<char>) -> Seq<(Seq<char>, Seq<char>)>
    decreases v, 0int,
{
    match v {
        JsonValue::String(s) => seq![(path, s@)],
        JsonValue::Array(items) => collect_items(items@, path, 0),
        JsonValue::Object(fields) => collect_fields(fields@, path, 0),
        _ => seq![],
    }
}

/// The strings of `items[i..]`, labelled `path[index]`.
pub open spec fn collect_items(items: Seq<JsonValue>, path: Seq<char>, i: int) -> Seq<
    (Seq<char>, Seq<char>),
>
    decreases items, items.len() - i,
{
    if i < 0 || i >= items.len() {
        seq![]
    } else {
        collect_strings_spec(items[i], path + "["@ + decimal(i as nat) + "]"@) + collect_items(
            items,
            path,
            i + 1,
        )
    }
}

/// The strings of the members `fields[i..]`, labelled `path.key`.
pub open spec fn collect_fields(fields: Seq<(String, JsonValue)>, path: Seq<char>, i: int) -> Seq<
    (Seq<char>, Seq<char>),
>
    decreases fields, fields.len() - i,
{
    if i < 0 || i >= fields.len() {
        seq![]
    } else {
        collect_strings_spec(fields[i].1, path + "."@ + fields[i].0@) + collect_fields(
            fields,
            path,
            i + 1,
        )
    }
}

pub open spec fn pairs_view(v: Seq<(String, String)>) -> Seq<(Seq<char>, Seq<char>)> {
    v.map_values(|p: (String, String)| (p.0@, p.1@))
}

/// Recursively collect every string value with a JSON-path-ish location label.
fn collect_strings(value: &JsonValue, path: &Vec<char>, out: &mut Vec<(String, String)>)
    ensures
        pairs_view(final(out)@) == pairs_view(old(out)@) + collect_strings_spec(*value, path@),
    decreases value,
{
    match value {
        JsonValue::String(s) => {
            let ghost before = pairs_view(out@);
            out.push((string_of(path), s.clone()));
            assert(pairs_view(out@) == before.push((path@, s@)));
            assert(before + seq![(path@, s@)] == before.push((path@, s@)));
        },
        JsonValue::Array(items) => {
            let mut i: usize = 0;
            while i < items.len()
                invariant
                    i <= items.len(),
                    *value == JsonValue::Array(*items),
                    pairs_view(old(out)@) + collect_items(items@, path@, 0) == pairs_view(out@)
                        + collect_items(items@, path@, i as int),
                decreases items.len() - i,
            {
                let mut p = path.clone();
                p.push('[');
                push_decimal(&mut p, i as u64);
                p.push(']');
                assert(p@ == path@ + "["@ + decimal(i as nat) + "]"@) by {
                    reveal_strlit("[");
                    reveal_strlit("]");
                    assert(path@.push('[') == path@ + "["@);
                    assert((path@ + "["@ + decimal(i as nat)).push(']') == path@ + "["@
                        + decimal(i as nat) + "]"@);
                }
                assert(decreases_to!(*value => (*value)->Array_0));
                assert(decreases_to!(*items => items@));
                assert(decreases_to!(items@ => items@[i as int]));
                assert(decreases_to!(*value => items@[i as int]));
                let ghost before = pairs_view(out@);
                collect_strings(&items[i], &p, out);
                assert(collect_items(items@, path@, i as int) == collect_strings_spec(
                    items@[i as int],
                    p@,
                ) + collect_items(items@, path@, i + 1));
                assert(before + (collect_strings_spec(items@[i as int], p@) + collect_items(
                    items@,
                    path@,
                    i + 1,
                )) == (before + collect_strings_spec(items@[i as int], p@)) + collect_items(
                    items@,
                    path@,
                    i + 1,
                ));
                i = i + 1;
            }
            assert(pairs_view(out@) + Seq::<(Seq<char>, Seq<char>)>::empty() == pairs_view(
                out@,
            ));
        },
        JsonValue::Object(fields) => {
            let mut i: usize = 0;
            while i < fields.len()
                invariant
                    i <= fields.len(),
                    *value == JsonValue::Object(*fields),
                    pairs_view(old(out)@) + collect_fields(fields@, path@, 0) == pairs_view(out@)
                        + collect_fields(fields@, path@, i as int),
                decreases fields.len() - i,
            {
                let mut p = path.clone();
                p.push('.');
                extend_str(&mut p, fields[i].0.as_str());
                assert(p@ == path@ + "."@ + fields@[i as int].0@) by {
                    reveal_strlit(".");
                    assert(path@.push('.') == path@ + "."@);
                }
                assert(decreases_to!(*value => (*value)->Object_0));
                assert(decreases_to!(*fields => fields@));
                assert(decreases_to!(fields@ => fields@[i as int]));
                assert(decreases_to!(fields@[i as int] => fields@[i as int].1));
                assert(decreases_to!(*value => fields@[i as int].1));
                let ghost before = pairs_view(out@);
                collect_strings(&fields[i].1, &p, out);
                assert(collect_fields(fields@, path@, i as int) == collect_strings_spec(
                    fields@[i as int].1,
                    p@,
                ) + collect_fields(fields@, path@, i + 1));
                assert(before + (collect_strings_spec(fields@[i as int].1, p@) + collect_fields(
                    fields@,
                    path@,
                    i + 1,
                )) == (before + collect_strings_spec(fields@[i as int].1, p@)) + collect_fields(
                    fields@,
                    path@,
                    i + 1,
                ));
                i = i + 1;
            }
            assert(pairs_view(out@) + Seq::<(Seq<char>, Seq<char>)>::empty() == pairs_view(
                out@,
            ));
        },
        _ => {
            assert(pairs_view(out@) + Seq::<(Seq<char>, Seq<char>)>::empty() == pairs_view(
                out@,
            ));
        },
    }
}

/// Static inspection of a downloaded manifest, prior to any approval prompt.
#[derive(Debug, Clone)]
pub struct InstallInspection {
    /// All flags raised during inspection.
    pub flags: Vec<InstallFlag>,
}

impl Default for InstallInspection {
    fn default() -> (r: Self)
        ensures
            r.flags@.len() == 0,
    {
        InstallInspection { flags: Vec::new() }
    }
}

/// Whether a URL points outside the registry host (a URL without a host is
/// treated as external).
pub open spec fn is_external(url: Seq<char>, registry_host: Seq<char>) -> bool {
    match spec_host_of(url) {
        Some(h) => !eq_ignore_ascii_case(h, registry_host),
        None => true,
    }
}

/// `ExternalUrl` flags for the external URLs among `urls[i..]`.
pub open spec fn url_flags(urls: Seq<Seq<char>>, location: Seq<char>, host: Seq<char>, i: int) -> Seq<
    FlagView,
>
    decreases urls.len() - i,
{
    if i < 0 || i >= urls.len() {
        seq![]
    } else if is_external(urls[i], host) {
        seq![FlagView::ExternalUrl { url: urls[i], location }] + url_flags(
            urls,
            location,
            host,
            i + 1,
        )
    } else {
        url_flags(urls, location, host, i + 1)
    }
}

/// The flags one located string raises: its external URLs, then its
/// download-style language.
pub open spec fn string_flags(location: Seq<char>, text: Seq<char>, host: Seq<char>) -> Seq<
    FlagView,
> {
    url_flags(spec_extract_urls(text), location, host, 0) + match spec_download_language(text) {
        Some(snippet) => seq![FlagView::DownloadInstruction { snippet }],
        None => seq![],
    }
}

/// The flags raised by the located strings `pairs[i..]`.
pub open spec fn strings_flags(pairs: Seq<(Seq<char>, Seq<char>)>, host: Seq<char>, i: int) -> Seq<
    FlagView,
>
    decreases pairs.len() - i,
{
    if i < 0 || i >= pairs.len() {
        seq![]
    } else {
        string_flags(pairs[i].0, pairs[i].1, host) + strings_flags(pairs, host, i + 1)
    }
}

/// The `ShellExecution` flag of a manifest whose `kind.type` is `shell`
/// (any ASCII case), carrying `kind.command` (empty when absent).
pub open spec fn shell_flags(m: JsonValue) -> Seq<FlagView> {
    match json_get(m, "kind"@) {
        Some(kind) => match json_get(kind, "type"@) {
            Some(t) => match json_as_str(t) {
                Some(ty) => if eq_ignore_ascii_case(ty, "shell"@) {
                    seq![
                        FlagView::ShellExecution {
                            command: match json_get(kind, "command"@) {
                                Some(c) => match json_as_str(c) {
                                    Some(cmd) => cmd,
                                    None => Seq::<char>::empty(),
                                },
                                None => Seq::<char>::empty(),
                            },
                        },
                    ]
                } else {
                    seq![]
                },
                None => seq![],
            },
            None => seq![],
        },
        None => seq![],
    }
}

/// Everything inspection flags, in order: `Unverified` (when not verified),
/// shell execution, then per string (in document order) its external URLs
/// and download-style language.
pub open spec fn inspect_spec(m: JsonValue, registry_host: Seq<char>, verified: bool) -> Seq<
    FlagView,
> {
    (if verified {
        Seq::<FlagView>::empty()
    } else {
        seq![FlagView::Unverified]
    }) + shell_flags(m) + strings_flags(collect_strings_spec(m, "manifest"@), registry_host, 0)
}

fn push_flag(flags: &mut Vec<InstallFlag>, f: InstallFlag)
    ensures
        flags_view(final(flags)@) == flags_view(old(flags)@).push(f@),
{
    flags.push(f);
    assert(flags_view(flags@) =~= flags_view(old(flags)@).push(f@));
}

/// The `ShellExecution` flag, if any.
fn shell_flag_of(manifest: &JsonValue, flags: &mut Vec<InstallFlag>)
    ensures
        flags_view(final(flags)@) == flags_view(old(flags)@) + shell_flags(*manifest),
{
    let ghost before = flags_view(flags@);
    assert(before + Seq::<FlagView>::empty() == before);
    if let Some(kind) = manifest.get("kind") {
        if let Some(t) = kind.get("type") {
            if let Some(ty) = t.as_str() {
                let tyc = chars_of(ty);
                let shell = chars_of("shell");
                if chars_eq_ignore_ascii_case(&tyc, &shell) {
                    let command = match kind.get("command") {
                        Some(c) => match c.as_str() {
                            Some(cmd) => string_of(&chars_of(cmd)),
                            None => String::new(),
                        },
                        None => String::new(),
                    };
                    let ghost expected = match json_get(*kind, "command"@) {
                        Some(c) => match json_as_str(c) {
                            Some(cmd) => cmd,
                            None => Seq::<char>::empty(),
                        },
                        None => Seq::<char>::empty(),
                    };
                    assert(command@ == expected);
                    assert(shell_flags(*manifest) == seq![
                        FlagView::ShellExecution { command: expected },
                    ]);
                    push_flag(flags, InstallFlag::ShellExecution { command });
                    assert(before.push(FlagView::ShellExecution { command: expected }) == before
                        + seq![FlagView::ShellExecution { command: expected }]);
                }
            }
        }
    }
}

/// Flags for one located string.
fn flags_for_string(location: &String, text: &String, host: &[char], flags: &mut Vec<InstallFlag>)
    ensures
        flags_view(final(flags)@) == flags_view(old(flags)@) + string_flags(
            location@,
            text@,
            host@,
        ),
{
    let urls = extract_urls(text.as_str());
    let ghost uv = strings_view(urls@);
    let mut i: usize = 0;
    while i < urls.len()
        invariant
            i <= urls.len(),
            uv == strings_view(urls@),
            uv == spec_extract_urls(text@),
            flags_view(old(flags)@) + url_flags(uv, location@, host@, 0) == flags_view(flags@)
                + url_flags(uv, location@, host@, i as int),
        decreases urls.len() - i,
    {
        let ghost before = flags_view(flags@);
        assert(uv[i as int] == urls@[i as int]@);
        let external = match host_of(urls[i].as_str()) {
            Some(h) => {
                let hc = chars_of(h.as_str());
                !chars_eq_ignore_ascii_case(&hc, host)
            },
            None => true,
        };
        if external {
            push_flag(
                flags,
                InstallFlag::ExternalUrl { url: urls[i].clone(), location: location.clone() },
            );
            assert(before + (seq![FlagView::ExternalUrl { url: uv[i as int], location: location@ }]
                + url_flags(uv, location@, host@, i + 1)) == before.push(
                FlagView::ExternalUrl { url: uv[i as int], location: location@ },
            ) + url_flags(uv, location@, host@, i + 1));
        }
        i = i + 1;
    }
    let ghost mid = flags_view(flags@);
    assert(url_flags(uv, location@, host@, i as int) == Seq::<FlagView>::empty());
    assert(mid + Seq::<FlagView>::empty() == mid);
    match download_language(text.as_str()) {
        Some(snippet) => {
            push_flag(flags, InstallFlag::DownloadInstruction { snippet });
            assert(mid.push(flags@.last()@) == mid + seq![flags@.last()@]);
        },
        None => {
            assert(mid + Seq::<FlagView>::empty() == mid);
        },
    }
    assert(flags_view(old(flags)@) + (url_flags(uv, location@, host@, 0) + match spec_download_language(text@) {
        Some(snippet) => seq![FlagView::DownloadInstruction { snippet }],
        None => seq![],
    }) == (flags_view(old(flags)@) + url_flags(uv, location@, host@, 0)) + match spec_download_language(text@) {
        Some(snippet) => seq![FlagView::DownloadInstruction { snippet }],
        None => seq![],
    });
}

impl InstallInspection {
    /// Inspect a manifest document. `registry_host` is the host of the
    /// configured registry; URLs on other hosts are flagged.
    pub fn inspect(manifest: &JsonValue, registry_host: &str, verified: bool) -> (r: Self)
        ensures
            flags_view(r.flags@) == inspect_spec(*manifest, registry_host@, verified),
    {
        let mut flags: Vec<InstallFlag> = Vec::new();
        assert(flags_view(flags@) == Seq::<FlagView>::empty());
        if !verified {
            push_flag(&mut flags, InstallFlag::Unverified);
        }
        assert(flags_view(flags@) == (if verified {
            Seq::<FlagView>::empty()
        } else {
            seq![FlagView::Unverified]
        }));
        shell_flag_of(manifest, &mut flags);
        let mut strings: Vec<(String, String)> = Vec::new();
        let root = chars_of("manifest");
        collect_strings(manifest, &root, &mut strings);
        let ghost pv = pairs_view(strings@);
        assert(pairs_view(Seq::<(String, String)>::empty()) == Seq::<(Seq<char>, Seq<char>)>::empty());
        assert(pv == collect_strings_spec(*manifest, "manifest"@));
        let host = chars_of(registry_host);
        let ghost start = flags_view(flags@);
        let mut i: usize = 0;
        while i < strings.len()
            invariant
                i <= strings.len(),
                pv == pairs_view(strings@),
                host@ == registry_host@,
                start + strings_flags(pv, host@, 0) == flags_view(flags@) + strings_flags(
                    pv,
                    host@,
                    i as int,
                ),
            decreases strings.len() - i,
        {
            let ghost before = flags_view(flags@);
            flags_for_string(&strings[i].0, &strings[i].1, &host, &mut flags);
            assert(pv[i as int] == (strings@[i as int].0@, strings@[i as int].1@));
            assert(before + (string_flags(pv[i as int].0, pv[i as int].1, host@) + strings_flags(
                pv,
                host@,
                i + 1,
            )) == (before + string_flags(pv[i as int].0, pv[i as int].1, host@)) + strings_flags(
                pv,
                host@,
                i + 1,
            ));
            i = i + 1;
        }
        assert(flags_view(flags@) + Seq::<FlagView>::empty() == flags_view(flags@));
        InstallInspection { flags }
    }

    /// True when inspection raised no flags at all.
    pub fn is_clean(&self) -> (b: bool)
        ensures
            b == (self.flags@.len() == 0),
    {
        self.flags.len() == 0
    }
}

// ── Checksums ────────────────────────────────────────────────────────────────

/// The SHA-256 digest of `data` (named, not stated).
pub uninterp spec fn sha256(data: Seq<u8>) -> Seq<u8>;

/// Calls `sha2::Sha256::digest`. Claims that the digest is a function of the
/// input bytes, named `sha256`, and is 32 bytes long (SHA-256's output size).
#[verifier::external_body]
fn sha256_digest(data: &[u8]) -> (d: Vec<u8>)
    ensures
        d@ == sha256(data@),
        d@.len() == 32,
{
    sha2::Sha256::digest(data).to_vec()
}

pub open spec fn hex_digit_lower(d: nat) -> char {
    if d < 10 {
        decimal(d)[0]
    } else if d == 10 {
        'a'
    } else if d == 11 {
        'b'
    } else if d == 12 {
        'c'
    } else if d == 13 {
        'd'
    } else if d == 14 {
        'e'
    } else {
        'f'
    }
}

/// Lowercase hexadecimal, two digits per byte (high nibble first).
pub open spec fn hex_lower(b: Seq<u8>) -> Seq<char>
    decreases b.len(),
{
    if b.len() == 0 {
        seq![]
    } else {
        hex_lower(b.drop_last()) + seq![
            hex_digit_lower((b.last() / 16) as nat),
            hex_digit_lower((b.last() % 16) as nat),
        ]
    }
}

/// Calls `hex::encode`, which writes each byte as two lowercase hex digits,
/// high nibble first.
#[verifier::external_body]
fn hex_encode(data: &[u8]) -> (s: String)
    ensures
        s@ == hex_lower(data@),
{
    hex::encode(data)
}

/// Hex-encoded SHA-256 of `bytes`.
pub fn sha256_hex(bytes: &[u8]) -> (s: String)
    ensures
        s@ == hex_lower(sha256(bytes@)),
{
    let d = sha256_digest(bytes);
    hex_encode(d.as_slice())
}

// ── Policy ───────────────────────────────────────────────────────────────────

/// Operator consent for a single install operation.
#[derive(Debug, Clone, Copy, PartialEq, Eq, Structural)]
pub enum InstallConsent {
    /// No consent given — install must be refused when approval is required.
    Withheld,
    /// Operator explicitly approved this install (after seeing the flags).
    Approved,
}

/// Outcome of policy evaluation.
#[derive(Debug, Clone, PartialEq, Eq)]
pub enum InstallDecision {
    /// Install may proceed.
    Allow,
    /// Refused: operator approval required but not given. Carries the
    /// inspection flag summaries to show in the approval prompt.
    ApprovalRequired { flags: Vec<String> },
    /// Refused outright (allowlist, pin, or checksum violation).
    Deny { reason: String },
}

/// The content of an [`InstallDecision`].
pub enum DecisionView {
    Allow,
    ApprovalRequired { flags: Seq<Seq<char>> },
    Deny { reason: Seq<char> },
}

impl View for InstallDecision {
    type V = DecisionView;

    open spec fn view(&self) -> DecisionView {
        match self {
            InstallDecision::Allow => DecisionView::Allow,
            InstallDecision::ApprovalRequired { flags } => DecisionView::ApprovalRequired {
                flags: strings_view(flags@),
            },
            InstallDecision::Deny { reason } => DecisionView::Deny { reason: reason@ },
        }
    }
}

/// Install-policy configuration.
#[derive(Debug, Clone)]
pub struct InstallPolicyConfig {
    /// Require explicit operator approval for every install (default: true).
    pub require_approval: bool,
    /// Refuse installs when the catalogue entry carries no sha256 (default: false).
    pub require_checksum: bool,
    /// Pinned versions: (skill name, exact version). A pinned skill installs
    /// only at its pinned version; the first entry for a name counts.
    pub pinned_versions: Vec<(String, String)>,
    /// Vetted-mirror mode: when non-empty, only these skill names may install.
    pub allowlist: Vec<String>,
    /// Path of the install audit log, when not the default.
    pub audit_log_path: Option<String>,
}

/// The content of an [`InstallPolicyConfig`].
pub struct ConfigView {
    pub require_approval: bool,
    pub require_checksum: bool,
    pub pinned: Seq<(Seq<char>, Seq<char>)>,
    pub allowlist: Seq<Seq<char>>,
    pub audit_log_path: Option<Seq<char>>,
}

impl View for InstallPolicyConfig {
    type V = ConfigView;

    open spec fn view(&self) -> ConfigView {
        ConfigView {
            require_approval: self.require_approval,
            require_checksum: self.require_checksum,
            pinned: pairs_view(self.pinned_versions@),
            allowlist: strings_view(self.allowlist@),
            audit_log_path: match self.audit_log_path {
                Some(p) => Some(p@),
                None => None,
            },
        }
    }
}

pub open spec fn default_config_view() -> ConfigView {
    ConfigView {
        require_approval: true,
        require_checksum: false,
        pinned: seq![],
        allowlist: seq![],
        audit_log_path: None,
    }
}

impl Default for InstallPolicyConfig {
    fn default() -> (c: Self)
        ensures
            c@ == default_config_view(),
            c.audit_log_path is None,
    {
        let c = InstallPolicyConfig {
            require_approval: true,
            require_checksum: false,
            pinned_versions: Vec::new(),
            allowlist: Vec::new(),
            audit_log_path: None,
        };
        assert(pairs_view(c.pinned_versions@) =~= Seq::<(Seq<char>, Seq<char>)>::empty());
        assert(strings_view(c.allowlist@) =~= Seq::<Seq<char>>::empty());
        c
    }
}

/// The version `name` is pinned to: the first pin for `name` in `pins[i..]`.
pub open spec fn pinned_version(pins: Seq<(Seq<char>, Seq<char>)>, name: Seq<char>, i: int) -> Option<
    Seq<char>,
>
    decreases pins.len() - i,
{
    if i < 0 || i >= pins.len() {
        None
    } else if pins[i].0 == name {
        Some(pins[i].1)
    } else {
        pinned_version(pins, name, i + 1)
    }
}

/// The decision once allowlist, pin and checksum are satisfied.
pub open spec fn approval_decision(
    cfg: ConfigView,
    flags: Seq<FlagView>,
    consent: InstallConsent,
) -> DecisionView {
    if cfg.require_approval && consent != InstallConsent::Approved {
        DecisionView::ApprovalRequired { flags: flags.map_values(|f: FlagView| flag_summary(f)) }
    } else {
        DecisionView::Allow
    }
}

/// The decision once allowlist and pin are satisfied.
pub open spec fn checksum_decision(
    cfg: ConfigView,
    name: Seq<char>,
    bytes: Seq<u8>,
    expected: Option<Seq<char>>,
    flags: Seq<FlagView>,
    consent: InstallConsent,
) -> DecisionView {
    match expected {
        Some(e) => {
            let actual = hex_lower(sha256(bytes));
            if !eq_ignore_ascii_case(actual, e) {
                DecisionView::Deny {
                    reason: "checksum mismatch for '"@ + name + "': expected "@ + e + ", got "@
                        + actual,
                }
            } else {
                approval_decision(cfg, flags, consent)
            }
        },
        None => if cfg.require_checksum {
            DecisionView::Deny {
                reason: "policy requires a checksum but the registry provided none for '"@ + name
                    + "'"@,
            }
        } else {
            approval_decision(cfg, flags, consent)
        },
    }
}

/// The policy's decision on installing `name` at `version`, in layer order:
/// allowlist, version pin, checksum, then operator approval.
pub open spec fn policy_decision(
    cfg: ConfigView,
    name: Seq<char>,
    version: Seq<char>,
    bytes: Seq<u8>,
    expected: Option<Seq<char>>,
    flags: Seq<FlagView>,
    consent: InstallConsent,
) -> DecisionView {
    if cfg.allowlist.len() > 0 && !cfg.allowlist.contains(name) {
        DecisionView::Deny { reason: "skill '"@ + name + "' is not in the install allowlist"@ }
    } else {
        match pinned_version(cfg.pinned, name, 0) {
            Some(pinned) if pinned != version => DecisionView::Deny {
                reason: "skill '"@ + name + "' is pinned to version "@ + pinned + ", refusing "@
                    + version,
            },
            _ => checksum_decision(cfg, name, bytes, expected, flags, consent),
        }
    }
}

/// Evaluates install requests against the configured policy.
#[derive(Debug, Clone)]
pub struct InstallPolicy {
    config: InstallPolicyConfig,
}

impl Default for InstallPolicy {
    fn default() -> (p: Self)
        ensures
            p.config()@ == default_config_view(),
    {
        InstallPolicy { config: InstallPolicyConfig::default() }
    }
}

fn contains_string(list: &Vec<String>, name: &[char]) -> (b: bool)
    ensures
        b == strings_view(list@).contains(name@),
{
    let mut i: usize = 0;
    while i < list.len()
        invariant
            i <= list.len(),
            forall|j: int| 0 <= j < i ==> list@[j]@ != name@,
        decreases list.len() - i,
    {
        let c = chars_of(list[i].as_str());
        if chars_eq(&c, name) {
            assert(strings_view(list@)[i as int] == name@);
            return true;
        }
        i = i + 1;
    }
    assert forall|j: int| 0 <= j < strings_view(list@).len() implies strings_view(list@)[j]
        != name@ by {
        assert(strings_view(list@)[j] == list@[j]@);
    }
    false
}

fn lookup_pin(pins: &Vec<(String, String)>, name: &[char]) -> (r: Option<String>)
    ensures
        opt_str_view(r) == pinned_version(pairs_view(pins@), name@, 0),
{
    let ghost pv = pairs_view(pins@);
    let mut i: usize = 0;
    while i < pins.len()
        invariant
            i <= pins.len(),
            pv == pairs_view(pins@),
            pinned_version(pv, name@, 0) == pinned_version(pv, name@, i as int),
        decreases pins.len() - i,
    {
        let c = chars_of(pins[i].0.as_str());
        assert(pv[i as int] == (pins@[i as int].0@, pins@[i as int].1@));
        if chars_eq(&c, name) {
            return Some(pins[i].1.clone());
        }
        i = i + 1;
    }
    None
}

impl InstallPolicy {
    pub fn new(config: InstallPolicyConfig) -> (p: Self)
        ensures
            *p.config() == config,
    {
        InstallPolicy { config }
    }

    pub closed spec fn spec_config(&self) -> &InstallPolicyConfig {
        &self.config
    }

    #[verifier::when_used_as_spec(spec_config)]
    pub fn config(&self) -> (c: &InstallPolicyConfig)
        ensures
            *c == self.spec_config(),
    {
        &self.config
    }

    /// Evaluate an install request.
    ///
    /// * `name`/`version` — the catalogue entry being installed
    /// * `manifest_bytes` — the exact bytes downloaded from the registry
    /// * `expected_sha256` — checksum from the catalogue entry, when present
    /// * `inspection` — result of [`InstallInspection::inspect`]
    /// * `consent` — operator consent for this operation
    pub fn evaluate(
        &self,
        name: &str,
        version: &str,
        manifest_bytes: &[u8],
        expected_sha256: Option<&str>,
        inspection: &InstallInspection,
        consent: InstallConsent,
    ) -> (d: InstallDecision)
        ensures
            d@ == policy_decision(
                self.config()@,
                name@,
                version@,
                manifest_bytes@,
                match expected_sha256 {
                    Some(e) => Some(e@),
                    None => None,
                },
                flags_view(inspection.flags@),
                consent,
            ),
    {
        let n = chars_of(name);
        // 1. Allowlist (vetted mirror mode).
        if self.config.allowlist.len() > 0 && !contains_string(&self.config.allowlist, &n) {
            return InstallDecision::Deny {
                reason: join3("skill '", name, "' is not in the install allowlist"),
            };
        }
        // 2. Version pinning.
        if let Some(pinned) = lookup_pin(&self.config.pinned_versions, &n) {
            if !str_eq(pinned.as_str(), version) {
                return InstallDecision::Deny {
                    reason: join6(
                        "skill '",
                        name,
                        "' is pinned to version ",
                        pinned.as_str(),
                        ", refusing ",
                        version,
                    ),
                };
            }
        }
        // 3. Checksum verification.
        match expected_sha256 {
            Some(expected) => {
                let actual = sha256_hex(manifest_bytes);
                let a = chars_of(actual.as_str());
                let e = chars_of(expected);
                if !chars_eq_ignore_ascii_case(&a, &e) {
                    return InstallDecision::Deny {
                        reason: join6(
                            "checksum mismatch for '",
                            name,
                            "': expected ",
                            expected,
                            ", got ",
                            actual.as_str(),
                        ),
                    };
                }
            },
            None => {
                if self.config.require_checksum {
                    return InstallDecision::Deny {
                        reason: join3(
                            "policy requires a checksum but the registry provided none for '",
                            name,
                            "'",
                        ),
                    };
                }
            },
        }
        // 4 + 5. Operator approval, informed by inspection flags.
        if self.config.require_approval && consent != InstallConsent::Approved {
            let mut summaries: Vec<String> = Vec::new();
            let mut i: usize = 0;
            while i < inspection.flags.len()
                invariant
                    i <= inspection.flags.len(),
                    summaries@.len() == i,
                    forall|j: int|
                        0 <= j < i ==> (#[trigger] summaries@[j])@ == flag_summary(
                            inspection.flags@[j]@,
                        ),
                decreases inspection.flags.len() - i,
            {
                let s = inspection.flags[i].summary();
                summaries.push(s);
                i = i + 1;
            }
            assert(strings_view(summaries@) =~= flags_view(inspection.flags@).map_values(
                |f: FlagView| flag_summary(f),
            ));
            return InstallDecision::ApprovalRequired { flags: summaries };
        }
        InstallDecision::Allow
    }
}


// ── Laws of the policy ───────────────────────────────────────────────────────

/// With a non-empty allowlist, a skill that is not on it is refused outright,
/// whatever its version, bytes, checksum, flags or consent.
pub proof fn lemma_unlisted_skill_denied(
    cfg: ConfigView,
    name: Seq<char>,
    version: Seq<char>,
    bytes: Seq<u8>,
    expected: Option<Seq<char>>,
    flags: Seq<FlagView>,
    consent: InstallConsent,
)
    requires
        cfg.allowlist.len() > 0,
        !cfg.allowlist.contains(name),
    ensures
        policy_decision(cfg, name, version, bytes, expected, flags, consent) is Deny,
{
}

/// An install is allowed only when every layer passed: the skill is
/// allowlisted (or no allowlist is set), any pin matches the version, any
/// checksum matches the bytes (a missing one only when none is required), and
/// approval was given where it is required.
pub proof fn lemma_allow_needs_every_layer(
    cfg: ConfigView,
    name: Seq<char>,
    version: Seq<char>,
    bytes: Seq<u8>,
    expected: Option<Seq<char>>,
    flags: Seq<FlagView>,
    consent: InstallConsent,
)
    requires
        policy_decision(cfg, name, version, bytes, expected, flags, consent) is Allow,
    ensures
        cfg.allowlist.len() == 0 || cfg.allowlist.contains(name),
        pinned_version(cfg.pinned, name, 0) is None || pinned_version(cfg.pinned, name, 0)
            == Some(version),
        expected is None ==> !cfg.require_checksum,
        expected is Some ==> eq_ignore_ascii_case(hex_lower(sha256(bytes)), expected->0),
        !cfg.require_approval || consent == InstallConsent::Approved,
{
}

/// Inspection flags inform the operator and never block by themselves: the
/// same request with any other set of flags is denied, allowed, or sent for
/// approval exactly alike.
pub proof fn lemma_flags_never_block(
    cfg: ConfigView,
    name: Seq<char>,
    version: Seq<char>,
    bytes: Seq<u8>,
    expected: Option<Seq<char>>,
    flags_a: Seq<FlagView>,
    flags_b: Seq<FlagView>,
    consent: InstallConsent,
)
    ensures
        (policy_decision(cfg, name, version, bytes, expected, flags_a, consent) is Allow)
            == (policy_decision(cfg, name, version, bytes, expected, flags_b, consent) is Allow),
        (policy_decision(cfg, name, version, bytes, expected, flags_a, consent) is Deny) == (
        policy_decision(cfg, name, version, bytes, expected, flags_b, consent) is Deny),
        policy_decision(cfg, name, version, bytes, expected, flags_a, consent) is Deny
            ==> policy_decision(cfg, name, version, bytes, expected, flags_a, consent)
            == policy_decision(cfg, name, version, bytes, expected, flags_b, consent),
{
}

/// Under the default configuration no install proceeds without consent.
pub proof fn lemma_default_needs_consent(
    name: Seq<char>,
    version: Seq<char>,
    bytes: Seq<u8>,
    expected: Option<Seq<char>>,
    flags: Seq<FlagView>,
)
    ensures
        !(policy_decision(
            default_config_view(),
            name,
            version,
            bytes,
            expected,
            flags,
            InstallConsent::Withheld,
        ) is Allow),
{
}

// ── Audit log ────────────────────────────────────────────────────────────────

/// One line of the install audit log.
#[derive(Debug, Clone)]
pub struct InstallAuditEntry {
    /// ISO-8601 UTC timestamp.
    pub timestamp: String,
    /// Skill name.
    pub skill: String,
    /// Skill version.
    pub version: String,
    /// SHA-256 of the manifest bytes as downloaded.
    pub manifest_sha256: String,
    /// The decision that was reached.
    pub decision: InstallDecision,
    /// Flags raised by static inspection.
    pub flags: Vec<InstallFlag>,
    /// Registry the skill came from.
    pub registry_url: String,
}

/// Append-only audit log for skill installs, identified by its file path.
#[derive(Debug, Clone)]
pub struct InstallAuditLog {
    path: String,
}

impl InstallAuditLog {
    pub closed spec fn spec_path(&self) -> Seq<char> {
        self.path@
    }

    /// The audit log at `path`.
    pub fn new(path: String) -> (log: Self)
        ensures
            log.spec_path() == path@,
    {
        InstallAuditLog { path }
    }

    /// The file path of the log.
    pub fn path(&self) -> (p: &str)
        ensures
            p@ == self.spec_path(),
    {
        self.path.as_str()
    }
}

// ── Timestamps ───────────────────────────────────────────────────────────────

/// The proleptic Gregorian date `days` days after 1970-01-01, as
/// `(year, month, day)`, by the days-to-civil conversion over 400-year eras.
pub open spec fn civil_from_days(days: nat) -> (int, int, int) {
    let z = days + 719_468;
    let era = z / 146_097;
    let doe = z % 146_097;
    let yoe = (doe - doe / 1460 + doe / 36_524 - doe / 146_096) / 365;
    let doy = doe - (365 * yoe + yoe / 4 - yoe / 100);
    let mp = (5 * doy + 2) / 153;
    let d = doy - (153 * mp + 2) / 5 + 1;
    let mo = if mp < 10 {
        mp + 3
    } else {
        mp - 9
    };
    let y = yoe + era * 400 + if mo <= 2 {
        1int
    } else {
        0int
    };
    (y, mo, d)
}

/// `YYYY-MM-DDTHH:MM:SSZ` for `secs` seconds after the Unix epoch.
pub open spec fn iso8601(secs: nat) -> Seq<char> {
    let (y, mo, d) = civil_from_days(secs / 86_400);
    let rem = secs % 86_400;
    zero_pad(decimal(y as nat), 4) + seq!['-'] + zero_pad(decimal(mo as nat), 2) + seq!['-']
        + zero_pad(decimal(d as nat), 2) + seq!['T'] + zero_pad(decimal(rem / 3600), 2) + seq![':']
        + zero_pad(decimal((rem % 3600) / 60), 2) + seq![':'] + zero_pad(decimal(rem % 60), 2)
        + seq!['Z']
}

/// Every date the conversion yields has a month in 1..=12 and a day in
/// 1..=31, and a year no earlier than the epoch's era.
pub proof fn lemma_civil_date_in_range(days: nat)
    ensures
        1 <= civil_from_days(days).1 <= 12,
        1 <= civil_from_days(days).2 <= 31,
        civil_from_days(days).0 >= 0,
{
    let z = days + 719_468;
    let doe = z % 146_097;
    assert(0 <= doe < 146_097);
    lemma_doy_bounds(doe as int);
}

proof fn lemma_doy_bounds(doe: int)
    requires
        0 <= doe < 146_097,
    ensures
        ({
            let yoe = (doe - doe / 1460 + doe / 36_524 - doe / 146_096) / 365;
            let doy = doe - (365 * yoe + yoe / 4 - yoe / 100);
            let mp = (5 * doy + 2) / 153;
            let d = doy - (153 * mp + 2) / 5 + 1;
            0 <= yoe <= 399 && 0 <= doy <= 365 && 0 <= mp <= 11 && 1 <= d <= 31
        }),
{
}

/// The ISO-8601 UTC timestamp (seconds precision) of `secs` seconds after
/// the Unix epoch.
pub fn iso8601_from_secs(secs: u64) -> (s: String)
    ensures
        s@ == iso8601(secs as nat),
{
    let days = secs / 86_400;
    let rem = secs % 86_400;
    let z = days + 719_468;
    let era = z / 146_097;
    let doe = z % 146_097;
    proof {
        lemma_doy_bounds(doe as int);
    }
    let yoe = (doe - doe / 1460 + doe / 36_524 - doe / 146_096) / 365;
    let doy = doe - (365 * yoe + yoe / 4 - yoe / 100);
    let mp = (5 * doy + 2) / 153;
    let d = doy - (153 * mp + 2) / 5 + 1;
    let mo = if mp < 10 {
        mp + 3
    } else {
        mp - 9
    };
    let y = yoe + era * 400 + if mo <= 2 {
        1
    } else {
        0
    };
    let ghost c = civil_from_days(days as nat);
    assert(c == (y as int, mo as int, d as int));
    let mut out: Vec<char> = Vec::new();
    push_padded_decimal(&mut out, y, 4);
    out.push('-');
    push_padded_decimal(&mut out, mo, 2);
    out.push('-');
    push_padded_decimal(&mut out, d, 2);
    out.push('T');
    push_padded_decimal(&mut out, rem / 3600, 2);
    out.push(':');
    push_padded_decimal(&mut out, (rem % 3600) / 60, 2);
    out.push(':');
    push_padded_decimal(&mut out, rem % 60, 2);
    out.push('Z');
    assert(out@ =~= iso8601(secs as nat));
    string_of(&out)
}

/// Seconds since the Unix epoch by the system clock (0 if the clock reads
/// before the epoch). Calls `std::time::SystemTime::now`; nothing is
/// promised of the value, which depends on the machine's clock.
#[verifier::external_body]
fn unix_now_secs() -> (secs: u64) {
    std::time::SystemTime::now().duration_since(std::time::UNIX_EPOCH).map(|d| d.as_secs()).unwrap_or(0)
}

/// Current UTC timestamp in ISO-8601 (seconds precision).
pub fn iso8601_now() -> (s: String)
    ensures
        exists|secs: nat| secs <= u64::MAX && s@ == iso8601(secs),
{
    let secs = unix_now_secs();
    iso8601_from_secs(secs)
}

} // verus!
