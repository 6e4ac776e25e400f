//! The ClawHub skill catalogue: its entries, the locally cached index and
//! the client's decisions.
//!
//! Installing from the catalogue is gated by the client's install policy:
//! the downloaded manifest is inspected, the policy decides, every decision
//! is recorded in an audit entry, and only an allowed install names a file
//! to write.

use vstd::prelude::*;

use crate::install_policy::{
    flags_view, hex_lower, inspect_spec, iso8601, iso8601_now, policy_decision, sha256,
    sha256_hex, DecisionView, InstallAuditEntry, InstallAuditLog, InstallConsent,
    InstallDecision, InstallInspection, InstallPolicy, InstallPolicyConfig,
};
use crate::json::JsonValue;
use crate::synthesis::join_with;
use crate::text::{
    chars_eq, chars_of, contains, contains_chars, extend_str, has_prefix, lowercase,
    slice_chars, starts_with, string_of, to_lowercase,
};

verus! {

broadcast use vstd::string::group_string_axioms;

/// A single entry of the ClawHub skill catalogue. (The catalogue's star
/// rating is carried alongside by whoever reads the catalogue; no decision
/// here reads it.)
#[derive(Debug, Clone, PartialEq, Eq)]
pub struct ClawHubEntry {
    /// Unique skill name (snake_case).
    pub name: String,
    /// Published version string (SemVer).
    pub version: String,
    /// Short description of what the skill does.
    pub description: String,
    /// Author's handle or display name.
    pub author: String,
    /// Number of times this skill has been installed.
    pub downloads: u64,
    /// Free-form tags for search filtering.
    pub tags: Vec<String>,
    /// Whether the entry has been verified by the ClawHub team.
    pub verified: bool,
    /// Direct URL to the `.skill.json` manifest.
    pub manifest_url: String,
    /// SHA-256 of the manifest bytes, when the registry publishes one.
    pub sha256: Option<String>,
}

/// The content of a catalogue entry.
pub struct EntryView {
    pub name: Seq<char>,
    pub version: Seq<char>,
    pub description: Seq<char>,
    pub author: Seq<char>,
    pub downloads: u64,
    pub tags: Seq<Seq<char>>,
    pub verified: bool,
    pub manifest_url: Seq<char>,
    pub sha256: Option<Seq<char>>,
}

impl View for ClawHubEntry {
    type V = EntryView;

    open spec fn view(&self) -> EntryView {
        EntryView {
            name: self.name@,
            version: self.version@,
            description: self.description@,
            author: self.author@,
            downloads: self.downloads,
            tags: tag_texts(self.tags@),
            verified: self.verified,
            manifest_url: self.manifest_url@,
            sha256: match self.sha256 {
                Some(h) => Some(h@),
                None => None,
            },
        }
    }
}

/// The texts of a list of tags.
pub open spec fn tag_texts(tags: Seq<String>) -> Seq<Seq<char>> {
    tags.map_values(|t: String| t@)
}

/// The contents of a sequence of entries.
pub open spec fn entries_view(s: Seq<ClawHubEntry>) -> Seq<EntryView> {
    s.map_values(|e: ClawHubEntry| e@)
}

/// Whether some tag of `tags` equals `tag` once both are lowercased.
pub open spec fn has_tag_spec(tags: Seq<Seq<char>>, tag: Seq<char>) -> bool {
    exists|k: int| 0 <= k < tags.len() && lowercase(#[trigger] tags[k]) == lowercase(tag)
}

/// Whether an entry matches the lowercased query `q`: in its lowercased
/// name, description or one of its tags.
pub open spec fn entry_matches(e: EntryView, q: Seq<char>) -> bool {
    ||| contains(lowercase(e.name), q)
    ||| contains(lowercase(e.description), q)
    ||| exists|k: int| 0 <= k < e.tags.len() && contains(lowercase(#[trigger] e.tags[k]), q)
}

/// The entries among `entries[..n]` that match `q`, in order.
pub open spec fn matching(entries: Seq<EntryView>, q: Seq<char>, n: int) -> Seq<EntryView>
    decreases n,
{
    if n <= 0 || n > entries.len() {
        seq![]
    } else if entry_matches(entries[n - 1], q) {
        matching(entries, q, n - 1).push(entries[n - 1])
    } else {
        matching(entries, q, n - 1)
    }
}

/// The first entry of `entries[i..]` named `name`.
pub open spec fn first_named(entries: Seq<EntryView>, name: Seq<char>, i: int) -> Option<
    EntryView,
>
    decreases entries.len() - i,
{
    if i < 0 || i >= entries.len() {
        None
    } else if entries[i].name == name {
        Some(entries[i])
    } else {
        first_named(entries, name, i + 1)
    }
}

fn copy_strings(v: &Vec<String>) -> (r: Vec<String>)
    ensures
        r@ == v@,
{
    let mut out: Vec<String> = Vec::new();
    let mut i: usize = 0;
    while i < v.len()
        invariant
            i <= v.len(),
            out@ == v@.take(i as int),
        decreases v.len() - i,
    {
        out.push(v[i].clone());
        assert(out@ =~= v@.take(i + 1));
        i = i + 1;
    }
    assert(v@.take(v@.len() as int) =~= v@);
    out
}

fn copy_entry(e: &ClawHubEntry) -> (r: ClawHubEntry)
    ensures
        r@ == e@,
{
    ClawHubEntry {
        name: e.name.clone(),
        version: e.version.clone(),
        description: e.description.clone(),
        author: e.author.clone(),
        downloads: e.downloads,
        tags: copy_strings(&e.tags),
        verified: e.verified,
        manifest_url: e.manifest_url.clone(),
        sha256: match &e.sha256 {
            Some(s) => Some(s.clone()),
            None => None,
        },
    }
}

fn any_contains(tags: &Vec<String>, q: &[char]) -> (b: bool)
    ensures
        b == exists|k: int| 0 <= k < tags@.len() && contains(lowercase(#[trigger] tags@[k]@), q@),
        b == exists|k: int| 0 <= k < tags@.len() && contains(lowercase(#[trigger] tag_texts(tags@)[k]), q@),
{
    let mut i: usize = 0;
    while i < tags.len()
        invariant
            i <= tags.len(),
            forall|k: int| 0 <= k < i ==> !contains(lowercase(#[trigger] tags@[k]@), q@),
        decreases tags.len() - i,
    {
        if contains_chars(&chars_of(to_lowercase(tags[i].as_str()).as_str()), q) {
            assert(tag_texts(tags@)[i as int] == tags@[i as int]@);
            return true;
        }
        i = i + 1;
    }
    assert forall|k: int| 0 <= k < tags@.len() implies !contains(lowercase(#[trigger] tag_texts(tags@)[k]), q@) by {
        assert(tag_texts(tags@)[k] == tags@[k]@);
    }
    false
}

fn matches_query(e: &ClawHubEntry, q: &[char]) -> (b: bool)
    ensures
        b == entry_matches(e@, q@),
{
    let in_name = contains_chars(&chars_of(to_lowercase(e.name.as_str()).as_str()), q);
    let in_description = contains_chars(&chars_of(to_lowercase(e.description.as_str()).as_str()), q);
    let in_tags = any_contains(&e.tags, q);
    assert(e@.tags == tag_texts(e.tags@));
    in_name || in_description || in_tags
}

impl ClawHubEntry {
    /// Whether the entry is marked as verified by ClawHub.
    pub fn is_verified(&self) -> (b: bool)
        ensures
            b == self.verified,
    {
        self.verified
    }

    /// Whether any tag matches `tag`, case-insensitively (both lowercased).
    pub fn has_tag(&self, tag: &str) -> (b: bool)
        ensures
            b == has_tag_spec(self@.tags, tag@),
    {
        let lower = chars_of(to_lowercase(tag).as_str());
        let mut i: usize = 0;
        while i < self.tags.len()
            invariant
                i <= self.tags.len(),
                lower@ == lowercase(tag@),
                forall|k: int| 0 <= k < i ==> lowercase(#[trigger] self.tags@[k]@) != lowercase(tag@),
            decreases self.tags.len() - i,
        {
            let t = chars_of(to_lowercase(self.tags[i].as_str()).as_str());
            if chars_eq(&t, &lower) {
                assert(self@.tags[i as int] == self.tags@[i as int]@);
                return true;
            }
            i = i + 1;
        }
        assert forall|k: int| 0 <= k < self@.tags.len() implies lowercase(#[trigger] self@.tags[k]) != lowercase(tag@) by {
            assert(self@.tags[k] == self.tags@[k]@);
        }
        false
    }
}

/// A locally cached index of the catalogue.
#[derive(Debug, Clone, PartialEq, Eq)]
pub struct SkillRegistryIndex {
    /// All entries loaded from the remote catalogue or cache.
    pub entries: Vec<ClawHubEntry>,
    /// When the index was last refreshed (Unix seconds).
    pub refreshed_at: Option<u64>,
    /// Base URL of the registry the index was fetched from.
    pub registry_url: String,
}

impl SkillRegistryIndex {
    /// An empty index for the registry at `registry_url`.
    pub fn new(registry_url: String) -> (idx: Self)
        ensures
            idx.entries@.len() == 0,
            idx.refreshed_at is None,
            idx.registry_url == registry_url,
    {
        SkillRegistryIndex { entries: Vec::new(), refreshed_at: None, registry_url }
    }

    /// The entries matching `query` (case-insensitively) in their name,
    /// description or tags, in index order.
    pub fn search(&self, query: &str) -> (r: Vec<&ClawHubEntry>)
        ensures
            r@.len() == matching(entries_view(self.entries@), lowercase(query@), self.entries@.len() as int).len(),
            forall|k: int|
                0 <= k < r@.len() ==> (*(#[trigger] r@[k]))@ == matching(
                    entries_view(self.entries@),
                    lowercase(query@),
                    self.entries@.len() as int,
                )[k],
    {
        let q = chars_of(to_lowercase(query).as_str());
        let mut out: Vec<&ClawHubEntry> = Vec::new();
        let mut i: usize = 0;
        while i < self.entries.len()
            invariant
                i <= self.entries.len(),
                q@ == lowercase(query@),
                out@.len() == matching(entries_view(self.entries@), q@, i as int).len(),
                forall|k: int| 0 <= k < out@.len() ==> (*(#[trigger] out@[k]))@ == matching(entries_view(self.entries@), q@, i as int)[k],
            decreases self.entries.len() - i,
        {
            assert(entries_view(self.entries@)[i as int] == self.entries@[i as int]@);
            if matches_query(&self.entries[i], &q) {
                out.push(&self.entries[i]);
            }
            i = i + 1;
        }
        out
    }

    /// The first entry named `name`, if any.
    pub fn find(&self, name: &str) -> (r: Option<&ClawHubEntry>)
        ensures
            match r {
                Some(e) => first_named(entries_view(self.entries@), name@, 0) == Some(e@),
                None => first_named(entries_view(self.entries@), name@, 0) is None,
            },
    {
        let n = chars_of(name);
        let mut i: usize = 0;
        while i < self.entries.len()
            invariant
                i <= self.entries.len(),
                n@ == name@,
                first_named(entries_view(self.entries@), name@, 0) == first_named(entries_view(self.entries@), name@, i as int),
            decreases self.entries.len() - i,
        {
            assert(entries_view(self.entries@)[i as int] == self.entries@[i as int]@);
            if chars_eq(&chars_of(self.entries[i].name.as_str()), &n) {
                return Some(&self.entries[i]);
            }
            i = i + 1;
        }
        None
    }

    /// The number of entries.
    pub fn len(&self) -> (n: usize)
        ensures
            n == self.entries@.len(),
    {
        self.entries.len()
    }

    /// Whether the index has no entries.
    pub fn is_empty(&self) -> (b: bool)
        ensures
            b == (self.entries@.len() == 0),
    {
        self.entries.len() == 0
    }
}

// ── The client ───────────────────────────────────────────────────────────────

/// The first index at or after `i` holding `/` or `:` (`s.len()` if none).
pub open spec fn first_host_sep(s: Seq<char>, i: int) -> int
    decreases s.len() - i,
{
    if i < 0 || i >= s.len() {
        s.len() as int
    } else if s[i] == '/' || s[i] == ':' {
        i
    } else {
        first_host_sep(s, i + 1)
    }
}

/// The host of the registry at `base_url`: the URL without its `https://`
/// or `http://` scheme, up to the first `/` or `:`.
pub open spec fn spec_registry_host(base_url: Seq<char>) -> Seq<char> {
    let rest = if starts_with(base_url, "https://"@) {
        base_url.skip(8)
    } else if starts_with(base_url, "http://"@) {
        base_url.skip(7)
    } else {
        base_url
    };
    rest.take(first_host_sep(rest, 0))
}

/// How the flags of an approval prompt are listed.
pub open spec fn flag_list(flags: Seq<Seq<char>>) -> Seq<char> {
    if flags.len() == 0 {
        "no flags raised"@
    } else {
        join_with(flags, "; "@)
    }
}

/// The outcome of an install decision for the entry `name` at `version`:
/// the manifest file name when allowed, else the error refusing it.
pub open spec fn install_outcome(name: Seq<char>, version: Seq<char>, d: DecisionView) -> Result<
    Seq<char>,
    Seq<char>,
> {
    match d {
        DecisionView::Allow => Ok(name + ".skill.json"@),
        DecisionView::Deny { reason } => Err("Install of '"@ + name + "' denied: "@ + reason),
        DecisionView::ApprovalRequired { flags } => Err(
            "Install of '"@ + name + "' v"@ + version + " requires operator approval. Inspection: "@
                + flag_list(flags) + ". Retry with InstallConsent::Approved after review."@,
        ),
    }
}

/// Client of a ClawHub registry: its base URL, the locally cached index,
/// the install policy and the install audit log.
#[derive(Debug, Clone)]
pub struct ClawHubClient {
    /// Base URL of the registry (e.g. `https://hub.openclaw.ai`).
    pub base_url: String,
    index: SkillRegistryIndex,
    policy: InstallPolicy,
    audit_log: InstallAuditLog,
}

fn join_flags(flags: &Vec<String>) -> (s: Vec<char>)
    ensures
        s@ == flag_list(flags@.map_values(|f: String| f@)),
{
    let ghost fv = flags@.map_values(|f: String| f@);
    if flags.len() == 0 {
        return chars_of("no flags raised");
    }
    let mut out = chars_of(flags[0].as_str());
    let mut i: usize = 1;
    assert(fv.take(1) =~= seq![fv[0]]);
    while i < flags.len()
        invariant
            1 <= i <= flags.len(),
            fv == flags@.map_values(|f: String| f@),
            out@ == join_with(fv.take(i as int), "; "@),
        decreases flags.len() - i,
    {
        assert(fv.take(i + 1).drop_last() =~= fv.take(i as int));
        extend_str(&mut out, "; ");
        extend_str(&mut out, flags[i].as_str());
        i = i + 1;
    }
    assert(fv.take(flags@.len() as int) =~= fv);
    out
}

impl ClawHubClient {
    /// The registry's base URL.
    pub closed spec fn base_url_of(&self) -> String {
        self.base_url
    }

    /// The client's cached index.
    pub closed spec fn index_of(&self) -> SkillRegistryIndex {
        self.index
    }

    /// The client's install policy.
    pub closed spec fn policy_of(&self) -> InstallPolicy {
        self.policy
    }

    /// The path of the client's audit log.
    pub closed spec fn audit_path_of(&self) -> Seq<char> {
        self.audit_log.spec_path()
    }

    /// A client for `base_url` with an explicit install policy. The audit
    /// log is the policy's, or `default_audit_path` when it names none.
    pub fn with_policy(base_url: String, policy_config: InstallPolicyConfig, default_audit_path: String) -> (c: Self)
        ensures
            c.base_url_of() == base_url,
            c.index_of().entries@.len() == 0,
            c.index_of().refreshed_at is None,
            c.index_of().registry_url == base_url,
            c.policy_of().config() == policy_config,
            c.audit_path_of() == match policy_config.audit_log_path {
                Some(p) => p@,
                None => default_audit_path@,
            },
    {
        let index = SkillRegistryIndex::new(base_url.clone());
        let audit_path = match &policy_config.audit_log_path {
            Some(p) => p.clone(),
            None => default_audit_path,
        };
        ClawHubClient {
            base_url,
            index,
            policy: InstallPolicy::new(policy_config),
            audit_log: InstallAuditLog::new(audit_path),
        }
    }

    /// A client for `base_url` with the default (secure) install policy:
    /// every install requires explicit operator consent.
    pub fn new(base_url: String, default_audit_path: String) -> (c: Self)
        ensures
            c.base_url_of() == base_url,
            c.index_of().entries@.len() == 0,
            c.index_of().registry_url == base_url,
            c.policy_of().config()@ == crate::install_policy::default_config_view(),
            c.audit_path_of() == default_audit_path@,
    {
        ClawHubClient::with_policy(base_url, InstallPolicyConfig::default(), default_audit_path)
    }

    /// The active install policy.
    pub fn policy(&self) -> (p: &InstallPolicy)
        ensures
            *p == self.policy_of(),
    {
        &self.policy
    }

    /// The install audit log.
    pub fn audit_log(&self) -> (l: &InstallAuditLog)
        ensures
            l.spec_path() == self.audit_path_of(),
    {
        &self.audit_log
    }

    /// A copy of the locally cached index.
    pub fn local_index(&self) -> (idx: SkillRegistryIndex)
        ensures
            entries_view(idx.entries@) == entries_view(self.index_of().entries@),
            idx.refreshed_at == self.index_of().refreshed_at,
            idx.registry_url == self.index_of().registry_url,
    {
        let mut entries: Vec<ClawHubEntry> = Vec::new();
        let mut i: usize = 0;
        while i < self.index.entries.len()
            invariant
                i <= self.index.entries.len(),
                entries@.len() == i,
                forall|k: int| 0 <= k < i ==> (#[trigger] entries@[k])@ == self.index.entries@[k]@,
            decreases self.index.entries.len() - i,
        {
            entries.push(copy_entry(&self.index.entries[i]));
            i = i + 1;
        }
        assert(entries_view(entries@) =~= entries_view(self.index.entries@));
        SkillRegistryIndex {
            entries,
            refreshed_at: self.index.refreshed_at,
            registry_url: self.index.registry_url.clone(),
        }
    }

    /// Whether a search must first fetch the catalogue (the cached index is
    /// empty).
    pub fn needs_refresh(&self) -> (b: bool)
        ensures
            b == (self.index_of().entries@.len() == 0),
    {
        self.index.is_empty()
    }

    /// Replaces the cached index with the catalogue fetched at `now_secs`.
    pub fn refresh_with(&mut self, entries: Vec<ClawHubEntry>, now_secs: u64)
        ensures
            final(self).index_of().entries == entries,
            final(self).index_of().refreshed_at == Some(now_secs),
            final(self).index_of().registry_url == old(self).index_of().registry_url,
            final(self).base_url_of() == old(self).base_url_of(),
            final(self).policy_of() == old(self).policy_of(),
            final(self).audit_path_of() == old(self).audit_path_of(),
    {
        self.index.entries = entries;
        self.index.refreshed_at = Some(now_secs);
    }

    /// The cached entries matching `query` (see [`SkillRegistryIndex::search`]).
    pub fn search(&self, query: &str) -> (r: Vec<ClawHubEntry>)
        ensures
            entries_view(r@) == matching(
                entries_view(self.index_of().entries@),
                lowercase(query@),
                self.index_of().entries@.len() as int,
            ),
    {
        let found = self.index.search(query);
        let mut out: Vec<ClawHubEntry> = Vec::new();
        let mut i: usize = 0;
        while i < found.len()
            invariant
                i <= found.len(),
                out@.len() == i,
                forall|k: int| 0 <= k < i ==> (#[trigger] out@[k])@ == (*found@[k])@,
            decreases found.len() - i,
        {
            out.push(copy_entry(found[i]));
            i = i + 1;
        }
        assert(entries_view(out@) =~= matching(
            entries_view(self.index.entries@),
            lowercase(query@),
            self.index.entries@.len() as int,
        ));
        out
    }

    /// The host of the registry, for telling external URLs apart.
    pub fn registry_host(&self) -> (h: String)
        ensures
            h@ == spec_registry_host(self.base_url_of()@),
    {
        let u = chars_of(self.base_url.as_str());
        proof {
            reveal_strlit("https://");
            reveal_strlit("http://");
        }
        let https = chars_of("https://");
        let http = chars_of("http://");
        let rest = if has_prefix(&u, &https) {
            slice_chars(&u, 8, u.len())
        } else if has_prefix(&u, &http) {
            slice_chars(&u, 7, u.len())
        } else {
            u
        };
        proof {
            if starts_with(self.base_url@, "https://"@) {
                assert(rest@ =~= self.base_url@.skip(8));
            } else if starts_with(self.base_url@, "http://"@) {
                assert(rest@ =~= self.base_url@.skip(7));
            }
        }
        let mut i: usize = 0;
        while i < rest.len() && rest[i] != '/' && rest[i] != ':'
            invariant
                i <= rest.len(),
                first_host_sep(rest@, 0) == first_host_sep(rest@, i as int),
            decreases rest.len() - i,
        {
            i = i + 1;
        }
        string_of(&slice_chars(&rest, 0, i))
    }

    /// Reviews an install of `entry` from the manifest downloaded for it
    /// (`manifest_bytes`, parsed as `manifest`): the manifest is inspected
    /// against the registry host, the policy decides, and the audit entry
    /// records the decision. An allowed install names the manifest file to
    /// write; a refused one gives the error to report.
    pub fn install_review(
        &self,
        entry: &ClawHubEntry,
        manifest_bytes: &[u8],
        manifest: &JsonValue,
        consent: InstallConsent,
    ) -> (r: (InstallAuditEntry, Result<String, String>))
        ensures
            r.0.skill == entry.name,
            r.0.version == entry.version,
            r.0.registry_url == self.base_url_of(),
            r.0.manifest_sha256@ == hex_lower(sha256(manifest_bytes@)),
            exists|secs: nat| secs <= u64::MAX && r.0.timestamp@ == iso8601(secs),
            flags_view(r.0.flags@) == inspect_spec(
                *manifest,
                spec_registry_host(self.base_url_of()@),
                entry.verified,
            ),
            r.0.decision@ == policy_decision(
                self.policy_of().config()@,
                entry.name@,
                entry.version@,
                manifest_bytes@,
                match entry.sha256 {
                    Some(e) => Some(e@),
                    None => None,
                },
                flags_view(r.0.flags@),
                consent,
            ),
            match (r.1, install_outcome(entry.name@, entry.version@, r.0.decision@)) {
                (Ok(f), Ok(g)) => f@ == g,
                (Err(m), Err(n)) => m@ == n,
                _ => false,
            },
    {
        let host = self.registry_host();
        let inspection = InstallInspection::inspect(manifest, host.as_str(), entry.verified);
        let expected: Option<&str> = match &entry.sha256 {
            Some(s) => Some(s.as_str()),
            None => None,
        };
        let decision = self.policy.evaluate(
            entry.name.as_str(),
            entry.version.as_str(),
            manifest_bytes,
            expected,
            &inspection,
            consent,
        );
        let outcome: Result<String, String> = match &decision {
            InstallDecision::Allow => {
                let mut f = chars_of(entry.name.as_str());
                extend_str(&mut f, ".skill.json");
                Ok(string_of(&f))
            },
            InstallDecision::Deny { reason } => {
                let mut m = chars_of("Install of '");
                extend_str(&mut m, entry.name.as_str());
                extend_str(&mut m, "' denied: ");
                extend_str(&mut m, reason.as_str());
                Err(string_of(&m))
            },
            InstallDecision::ApprovalRequired { flags } => {
                proof {
                    assert(crate::install_policy::strings_view(flags@) =~= flags@.map_values(
                        |f: String| f@,
                    ));
                }
                let mut m = chars_of("Install of '");
                extend_str(&mut m, entry.name.as_str());
                extend_str(&mut m, "' v");
                extend_str(&mut m, entry.version.as_str());
                extend_str(&mut m, " requires operator approval. Inspection: ");
                let listed = join_flags(flags);
                crate::text::extend_chars(&mut m, &listed);
                extend_str(&mut m, ". Retry with InstallConsent::Approved after review.");
                Err(string_of(&m))
            },
        };
        let audit = InstallAuditEntry {
            timestamp: iso8601_now(),
            skill: entry.name.clone(),
            version: entry.version.clone(),
            manifest_sha256: sha256_hex(manifest_bytes),
            decision,
            flags: inspection.flags,
            registry_url: self.base_url.clone(),
        };
        (audit, outcome)
    }
}

} // verus!
