//! Tunnel vocabulary: status and backend of the public tunnel, the choice of
//! backend from configuration, and the reading of Tailscale's output.

use vstd::prelude::*;

use crate::text::{
    char_is_white, lowercase, to_lowercase, chars_of, extend_str, find, find_from, is_white,
    lemma_find_from_some, push_decimal, decimal, slice_chars, string_of,
};

verus! {

broadcast use vstd::string::group_string_axioms;

/// Status of the tunnel connection.
#[derive(Debug, Clone, PartialEq, Eq)]
pub enum TunnelStatus {
    /// Tunnel is not running.
    Stopped,
    /// Tunnel is starting up.
    Starting,
    /// Tunnel is running and the public URL is available.
    Running { url: String },
    /// Tunnel encountered an error.
    Error { message: String },
}

pub open spec fn status_text(s: TunnelStatus) -> Seq<char> {
    match s {
        TunnelStatus::Stopped => "stopped"@,
        TunnelStatus::Starting => "starting"@,
        TunnelStatus::Running { url } => "running at "@ + url@,
        TunnelStatus::Error { message } => "error: "@ + message@,
    }
}

impl Default for TunnelStatus {
    fn default() -> (s: Self)
        ensures
            s == TunnelStatus::Stopped,
    {
        TunnelStatus::Stopped
    }
}

impl TunnelStatus {
    /// The human-readable status line.
    pub fn to_string(&self) -> (s: String)
        ensures
            s@ == status_text(*self),
    {
        match self {
            TunnelStatus::Stopped => string_of(&chars_of("stopped")),
            TunnelStatus::Starting => string_of(&chars_of("starting")),
            TunnelStatus::Running { url } => {
                let mut v = chars_of("running at ");
                extend_str(&mut v, url.as_str());
                string_of(&v)
            },
            TunnelStatus::Error { message } => {
                let mut v = chars_of("error: ");
                extend_str(&mut v, message.as_str());
                string_of(&v)
            },
        }
    }
}

/// Which tunnel backend to use.
#[derive(Debug, Clone, Copy, PartialEq, Eq, Structural)]
pub enum TunnelBackend {
    Cloudflare,
    Tailscale,
}

pub open spec fn backend_name(b: TunnelBackend) -> Seq<char> {
    match b {
        TunnelBackend::Cloudflare => "cloudflare"@,
        TunnelBackend::Tailscale => "tailscale"@,
    }
}

impl TunnelBackend {
    /// The backend's name.
    pub fn to_string(&self) -> (s: String)
        ensures
            s@ == backend_name(*self),
    {
        match self {
            TunnelBackend::Cloudflare => string_of(&chars_of("cloudflare")),
            TunnelBackend::Tailscale => string_of(&chars_of("tailscale")),
        }
    }
}

/// Tunnel configuration.
#[derive(Debug, Clone, PartialEq, Eq)]
pub struct TunnelConfig {
    /// Whether the tunnel is started with the gateway.
    pub enabled: bool,
    /// Backend name (`cloudflare`, `cloudflared` or `tailscale`, any case).
    pub backend: String,
    /// Local port the tunnel exposes.
    pub local_port: u16,
    /// Named Cloudflare tunnel, if any.
    pub named_tunnel: Option<String>,
    /// Cloudflare tunnel token, if any.
    pub token: Option<String>,
    /// Expose through Tailscale Funnel rather than the tailnet only.
    pub tailscale_funnel: bool,
}

/// The backend a configured name selects once lowercased: `cloudflare` or
/// its alias `cloudflared`, or `tailscale`.
pub open spec fn spec_backend(name: Seq<char>) -> Option<TunnelBackend> {
    let l = lowercase(name);
    if l == "cloudflare"@ || l == "cloudflared"@ {
        Some(TunnelBackend::Cloudflare)
    } else if l == "tailscale"@ {
        Some(TunnelBackend::Tailscale)
    } else {
        None
    }
}

/// The message for a backend name that selects no backend.
pub open spec fn unknown_backend_message(name: Seq<char>) -> Seq<char> {
    "Unknown tunnel backend: '"@ + lowercase(name) + "'. Use 'cloudflare' or 'tailscale'."@
}

/// What starting the tunnel asks for next.
#[derive(Debug, Clone, PartialEq, Eq)]
pub enum StartStep {
    /// The tunnel is already running at this URL; nothing is launched.
    AlreadyRunning { url: String },
    /// Launch `backend` exposing `local_port`, then report the outcome with
    /// [`TunnelManager::finish_start`].
    Launch { backend: TunnelBackend, local_port: u16 },
}

/// Manages the lifecycle of the public tunnel: its configuration and its
/// status. The running process itself is held by the caller that launched
/// it.
#[derive(Debug)]
pub struct TunnelManager {
    config: TunnelConfig,
    status: TunnelStatus,
}

impl TunnelManager {
    /// The manager's configuration.
    pub closed spec fn config_of(&self) -> TunnelConfig {
        self.config
    }

    /// The manager's current status.
    pub closed spec fn status_of(&self) -> TunnelStatus {
        self.status
    }

    /// A stopped manager for `config`.
    pub fn new(config: TunnelConfig) -> (m: Self)
        ensures
            m.config_of() == config,
            m.status_of() == TunnelStatus::Stopped,
    {
        TunnelManager { config, status: TunnelStatus::Stopped }
    }

    /// The configuration.
    pub fn config(&self) -> (c: &TunnelConfig)
        ensures
            *c == self.config_of(),
    {
        &self.config
    }

    /// The backend the configuration selects, or the error message naming
    /// the unknown backend.
    pub fn parse_backend(&self) -> (r: Result<TunnelBackend, String>)
        ensures
            match r {
                Ok(b) => spec_backend(self.config_of().backend@) == Some(b),
                Err(m) => spec_backend(self.config_of().backend@) is None && m@
                    == unknown_backend_message(self.config_of().backend@),
            },
    {
        let l = chars_of(to_lowercase(self.config.backend.as_str()).as_str());
        if crate::text::chars_eq(&l, &chars_of("cloudflare")) || crate::text::chars_eq(
            &l,
            &chars_of("cloudflared"),
        ) {
            Ok(TunnelBackend::Cloudflare)
        } else if crate::text::chars_eq(&l, &chars_of("tailscale")) {
            Ok(TunnelBackend::Tailscale)
        } else {
            let mut m = chars_of("Unknown tunnel backend: '");
            crate::text::extend_chars(&mut m, &l);
            extend_str(&mut m, "'. Use 'cloudflare' or 'tailscale'.");
            Err(string_of(&m))
        }
    }

    /// The current status.
    pub fn status(&self) -> (s: TunnelStatus)
        ensures
            s == self.status_of(),
    {
        match &self.status {
            TunnelStatus::Stopped => TunnelStatus::Stopped,
            TunnelStatus::Starting => TunnelStatus::Starting,
            TunnelStatus::Running { url } => TunnelStatus::Running { url: url.clone() },
            TunnelStatus::Error { message } => TunnelStatus::Error { message: message.clone() },
        }
    }

    /// The public URL, while the tunnel is running.
    pub fn url(&self) -> (u: Option<String>)
        ensures
            match self.status_of() {
                TunnelStatus::Running { url } => u == Some(url),
                _ => u is None,
            },
    {
        match &self.status {
            TunnelStatus::Running { url } => Some(url.clone()),
            _ => None,
        }
    }

    /// Begins starting the tunnel. A running tunnel is left as it is and
    /// its URL returned; otherwise the status becomes `Starting` and the
    /// configured backend is to be launched (an unknown backend is refused,
    /// leaving the status `Starting`).
    pub fn begin_start(&mut self) -> (r: Result<StartStep, String>)
        ensures
            match old(self).status_of() {
                TunnelStatus::Running { url } => {
                    &&& r == Ok::<StartStep, String>(StartStep::AlreadyRunning { url })
                    &&& final(self).status_of() == old(self).status_of()
                },
                _ => {
                    &&& final(self).status_of() == TunnelStatus::Starting
                    &&& match spec_backend(old(self).config_of().backend@) {
                        Some(b) => r == Ok::<StartStep, String>(
                            StartStep::Launch { backend: b, local_port: old(self).config_of().local_port },
                        ),
                        None => r matches Err(m) && m@ == unknown_backend_message(
                            old(self).config_of().backend@,
                        ),
                    }
                },
            },
            final(self).config_of() == old(self).config_of(),
    {
        if let TunnelStatus::Running { url } = &self.status {
            return Ok(StartStep::AlreadyRunning { url: url.clone() });
        }
        self.status = TunnelStatus::Starting;
        match self.parse_backend() {
            Ok(backend) => Ok(StartStep::Launch { backend, local_port: self.config.local_port }),
            Err(m) => Err(m),
        }
    }

    /// Records how launching the backend went: with the public URL the
    /// tunnel is running there; with an error message it is in error, and
    /// the start fails with that message.
    pub fn finish_start(&mut self, launched: Result<String, String>) -> (r: Result<String, String>)
        ensures
            final(self).config_of() == old(self).config_of(),
            match launched {
                Ok(url) => {
                    &&& r == Ok::<String, String>(url)
                    &&& final(self).status_of() == (TunnelStatus::Running { url })
                },
                Err(msg) => {
                    &&& final(self).status_of() == (TunnelStatus::Error { message: msg })
                    &&& r matches Err(e) && e@ == "Failed to start tunnel: "@ + msg@
                },
            },
    {
        match launched {
            Ok(url) => {
                self.status = TunnelStatus::Running { url: url.clone() };
                Ok(url)
            },
            Err(msg) => {
                let mut e = chars_of("Failed to start tunnel: ");
                extend_str(&mut e, msg.as_str());
                self.status = TunnelStatus::Error { message: msg };
                Err(string_of(&e))
            },
        }
    }

    /// Marks the tunnel stopped (its process is stopped by the caller).
    pub fn stop(&mut self)
        ensures
            final(self).status_of() == TunnelStatus::Stopped,
            final(self).config_of() == old(self).config_of(),
    {
        self.status = TunnelStatus::Stopped;
    }
}

// ── Tailscale ────────────────────────────────────────────────────────────────

/// The first index at or after `i` holding whitespace (`s.len()` if none).
pub open spec fn first_white(s: Seq<char>, i: int) -> int
    decreases s.len() - i,
{
    if i < 0 || i >= s.len() {
        s.len() as int
    } else if is_white(s[i]) {
        i
    } else {
        first_white(s, i + 1)
    }
}

/// `s` without its trailing `,` and `.` characters.
pub open spec fn trim_end_punct(s: Seq<char>) -> Seq<char>
    decreases s.len(),
{
    if s.len() > 0 && (s.last() == ',' || s.last() == '.') {
        trim_end_punct(s.drop_last())
    } else {
        s
    }
}

/// The public URL a line of `tailscale funnel` output announces: from the
/// first `https://` up to whitespace, without trailing `,`/`.`, when that is
/// longer than the bare scheme.
pub open spec fn spec_funnel_url(line: Seq<char>) -> Option<Seq<char>> {
    match find_from(line, "https://"@, 0) {
        None => None,
        Some(start) => {
            let rest = line.skip(start);
            let url = trim_end_punct(rest.take(first_white(rest, 0)));
            if url.len() > 8 {
                Some(url)
            } else {
                None
            }
        },
    }
}

/// The public URL announced on one line of Tailscale Funnel output, if any.
pub fn funnel_url_in_line(line: &str) -> (r: Option<String>)
    ensures
        match r {
            Some(u) => spec_funnel_url(line@) == Some(u@),
            None => spec_funnel_url(line@) is None,
        },
{
    proof {
        reveal_strlit("https://");
    }
    let l = chars_of(line);
    let start = match find(&l, &chars_of("https://"), 0) {
        Some(s) => s,
        None => return None,
    };
    proof {
        lemma_find_from_some(l@, "https://"@, 0);
    }
    let rest = slice_chars(&l, start, l.len());
    assert(rest@ == line@.skip(start as int));
    let mut end: usize = 0;
    while end < rest.len() && !char_is_white(rest[end])
        invariant
            end <= rest.len(),
            first_white(rest@, 0) == first_white(rest@, end as int),
        decreases rest.len() - end,
    {
        end = end + 1;
    }
    let mut k: usize = end;
    while k > 0 && (rest[k - 1] == ',' || rest[k - 1] == '.')
        invariant
            k <= end <= rest.len(),
            trim_end_punct(rest@.take(end as int)) == trim_end_punct(rest@.take(k as int)),
        decreases k,
    {
        assert(rest@.take(k as int).drop_last() == rest@.take(k - 1));
        k = k - 1;
    }
    assert(trim_end_punct(rest@.take(k as int)) == rest@.take(k as int));
    if k > 8 {
        Some(string_of(&slice_chars(&rest, 0, k)))
    } else {
        None
    }
}

/// The tailnet URL of a node at Tailscale address `ip` (already trimmed):
/// `http://<ip>:<port>`, none for an empty address.
pub fn tailnet_ip_url(ip: &str, port: u16) -> (r: Option<String>)
    ensures
        match r {
            Some(u) => ip@.len() > 0 && u@ == "http://"@ + ip@ + seq![':'] + decimal(port as nat),
            None => ip@.len() == 0,
        },
{
    let c = chars_of(ip);
    if c.len() == 0 {
        return None;
    }
    let mut v = chars_of("http://");
    extend_str(&mut v, ip);
    v.push(':');
    push_decimal(&mut v, port as u64);
    Some(string_of(&v))
}

/// The tailnet URL of a node by its DNS name: `https://<name>:<port>`, the
/// name without its trailing dots.
pub open spec fn spec_dns_url(dns_name: Seq<char>, port: u16) -> Seq<char> {
    "https://"@ + trim_end_dots(dns_name) + seq![':'] + decimal(port as nat)
}

pub open spec fn trim_end_dots(s: Seq<char>) -> Seq<char>
    decreases s.len(),
{
    if s.len() > 0 && s.last() == '.' {
        trim_end_dots(s.drop_last())
    } else {
        s
    }
}

/// The tailnet URL of a node by its DNS name.
pub fn tailnet_dns_url(dns_name: &str, port: u16) -> (u: String)
    ensures
        u@ == spec_dns_url(dns_name@, port),
{
    let c = chars_of(dns_name);
    let mut k: usize = c.len();
    assert(c@.take(c@.len() as int) == c@);
    while k > 0 && c[k - 1] == '.'
        invariant
            k <= c.len(),
            trim_end_dots(c@) == trim_end_dots(c@.take(k as int)),
        decreases k,
    {
        assert(c@.take(k as int).drop_last() == c@.take(k - 1));
        k = k - 1;
    }
    assert(c@.take(c@.len() as int) == c@);
    let mut v = chars_of("https://");
    crate::text::extend_chars(&mut v, &slice_chars(&c, 0, k));
    v.push(':');
    push_decimal(&mut v, port as u64);
    string_of(&v)
}

} // verus!
