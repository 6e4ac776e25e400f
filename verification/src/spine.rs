//! The communication spine's wire contract: MQTT topic names, configuration
//! defaults, and the framing of the broker-free peer-to-peer transport.
//!
//! ```text
//! obc/
//! +-- nodes/{node_id}/announce | heartbeat
//! +-- tools/{node_id}/call/{tool_name} | result/{call_id}
//! +-- fleet/assign/{node}
//! +-- broadcast/command
//! ```
//!
//! Peer-to-peer messages are framed with a 4-byte big-endian length prefix
//! followed by the JSON payload; frames above 1 MiB are refused.

use vstd::prelude::*;

use crate::json::{json_view, JsonValue, JsonView};
use crate::schema::{member, object, props_view};
use crate::text::{
    chars_of, decimal, extend_str, push_decimal, push_signed_decimal, signed_decimal, string_of,
};

verus! {

broadcast use vstd::string::group_string_axioms;

/// The MQTT topic prefix for all messages.
pub const TOPIC_PREFIX: &'static str = "obc";

/// `prefix`, then `a`, then `suffix`.
fn topic3(prefix: &str, a: &str, suffix: &str) -> (t: String)
    ensures
        t@ == prefix@ + a@ + suffix@,
{
    let mut v = chars_of(prefix);
    extend_str(&mut v, a);
    extend_str(&mut v, suffix);
    string_of(&v)
}

/// Topic for node announcements.
pub fn topic_announce(node_id: &str) -> (t: String)
    ensures
        t@ == "obc/nodes/"@ + node_id@ + "/announce"@,
{
    topic3("obc/nodes/", node_id, "/announce")
}

/// Topic for node heartbeats.
pub fn topic_heartbeat(node_id: &str) -> (t: String)
    ensures
        t@ == "obc/nodes/"@ + node_id@ + "/heartbeat"@,
{
    topic3("obc/nodes/", node_id, "/heartbeat")
}

/// Topic for tool call requests from the brain to a specific node.
pub fn topic_tool_call(node_id: &str, tool_name: &str) -> (t: String)
    ensures
        t@ == "obc/tools/"@ + node_id@ + "/call/"@ + tool_name@,
{
    let mut v = chars_of("obc/tools/");
    extend_str(&mut v, node_id);
    extend_str(&mut v, "/call/");
    extend_str(&mut v, tool_name);
    string_of(&v)
}

/// Topic for tool call results from a node back to the brain.
pub fn topic_tool_result(node_id: &str, call_id: &str) -> (t: String)
    ensures
        t@ == "obc/tools/"@ + node_id@ + "/result/"@ + call_id@,
{
    let mut v = chars_of("obc/tools/");
    extend_str(&mut v, node_id);
    extend_str(&mut v, "/result/");
    extend_str(&mut v, call_id);
    string_of(&v)
}

/// Topic for broadcast commands from the brain to all nodes.
pub fn topic_broadcast() -> (t: String)
    ensures
        t@ == "obc/broadcast/command"@,
{
    string_of(&chars_of("obc/broadcast/command"))
}

/// The topic an assignment for `node` is published on.
pub fn assignment_topic(node: &str) -> (t: String)
    ensures
        t@ == "obc/fleet/assign/"@ + node@,
{
    let mut v = chars_of("obc/fleet/assign/");
    extend_str(&mut v, node);
    string_of(&v)
}

// ── Reflex actions over the spine ────────────────────────────────────────────

/// The topic a reflex escalation is published on, for the agent to act on.
pub fn escalation_topic() -> (t: String)
    ensures
        t@ == "obc/escalation"@,
{
    string_of(&chars_of("obc/escalation"))
}

/// The payload of a reflex escalation: `{"reason": reason}`.
pub fn escalation_payload(reason: &str) -> (v: JsonValue)
    ensures
        json_view(v) == JsonView::Object(seq![("reason"@, JsonView::Str(reason@))]),
{
    let f = vec![member("reason", JsonValue::String(reason.to_string()))];
    let v = object(f);
    assert(props_view(f@) =~= seq![("reason"@, JsonView::Str(reason@))]);
    v
}

/// The topic a reflex movement command is published on.
pub fn movement_topic() -> (t: String)
    ensures
        t@ == "obc/movement"@,
{
    string_of(&chars_of("obc/movement"))
}

/// The arguments of the `gpio_write` tool call a reflex GPIO write becomes:
/// `{"pin": pin, "value": value}`.
pub fn gpio_write_args(pin: i64, value: i64) -> (v: JsonValue)
    ensures
        json_view(v) == JsonView::Object(
            seq![
                ("pin"@, JsonView::Number(signed_decimal(pin as int))),
                ("value"@, JsonView::Number(signed_decimal(value as int))),
            ],
        ),
{
    let mut p: Vec<char> = Vec::new();
    push_signed_decimal(&mut p, pin);
    let mut q: Vec<char> = Vec::new();
    push_signed_decimal(&mut q, value);
    assert(p@ =~= signed_decimal(pin as int));
    assert(q@ =~= signed_decimal(value as int));
    let f = vec![
        member("pin", JsonValue::Number(string_of(&p))),
        member("value", JsonValue::Number(string_of(&q))),
    ];
    let v = object(f);
    assert(props_view(f@) =~= seq![
        ("pin"@, JsonView::Number(signed_decimal(pin as int))),
        ("value"@, JsonView::Number(signed_decimal(value as int))),
    ]);
    v
}

/// The index just past the last `/` in `t[..i]` (0 if there is none).
pub open spec fn after_last_slash(t: Seq<char>, i: int) -> int
    decreases i,
{
    if i <= 0 || i > t.len() {
        0
    } else if t[i - 1] == '/' {
        i
    } else {
        after_last_slash(t, i - 1)
    }
}

/// The node a heartbeat topic (`obc/fleet/heartbeat/{node}`) is about: its
/// last `/`-separated segment, when that is not empty.
pub open spec fn spec_heartbeat_node(topic: Seq<char>) -> Option<Seq<char>> {
    let seg = topic.skip(after_last_slash(topic, topic.len() as int));
    if seg.len() == 0 {
        None
    } else {
        Some(seg)
    }
}

/// The node id of a heartbeat topic: its last segment, `None` when empty.
pub fn heartbeat_node_id(topic: &str) -> (r: Option<String>)
    ensures
        match r {
            Some(id) => spec_heartbeat_node(topic@) == Some(id@),
            None => spec_heartbeat_node(topic@) is None,
        },
{
    let t = chars_of(topic);
    let mut i: usize = t.len();
    while i > 0 && t[i - 1] != '/'
        invariant
            i <= t.len(),
            t@ == topic@,
            after_last_slash(t@, t.len() as int) == after_last_slash(t@, i as int),
        decreases i,
    {
        i = i - 1;
    }
    let mut seg: Vec<char> = Vec::new();
    let mut j: usize = i;
    while j < t.len()
        invariant
            i <= j <= t.len(),
            seg@ == t@.subrange(i as int, j as int),
        decreases t.len() - j,
    {
        seg.push(t[j]);
        j = j + 1;
    }
    if seg.len() == 0 {
        None
    } else {
        Some(string_of(&seg))
    }
}

/// A tool call result published by a node back to the brain.
#[derive(Debug, Clone, PartialEq, Eq)]
pub struct ToolCallResult {
    pub call_id: String,
    pub ok: bool,
    pub output: Option<String>,
    pub error: Option<String>,
}

/// Configuration of the MQTT spine.
#[derive(Debug, Clone, PartialEq, Eq)]
pub struct SpineConfig {
    /// Spine transport kind.
    pub kind: String,
    /// Broker host.
    pub host: String,
    /// Broker port.
    pub port: u16,
    /// Whether the broker connection uses TLS.
    pub tls: bool,
    /// Broker user name, when the broker wants credentials.
    pub username: Option<String>,
    /// Broker password, when the broker wants credentials.
    pub password: Option<String>,
    /// Seconds to wait for a node's tool call result.
    pub tool_timeout_secs: u64,
}

impl Default for SpineConfig {
    /// A plain MQTT broker on `localhost:1883`, without TLS or credentials,
    /// with a 30 s tool timeout.
    fn default() -> (c: Self)
        ensures
            c.kind@ == "mqtt"@,
            c.host@ == "localhost"@,
            c.port == 1883,
            !c.tls,
            c.username is None,
            c.password is None,
            c.tool_timeout_secs == 30,
    {
        SpineConfig {
            kind: string_of(&chars_of("mqtt")),
            host: string_of(&chars_of("localhost")),
            port: 1883,
            tls: false,
            username: None,
            password: None,
            tool_timeout_secs: 30,
        }
    }
}

// ── Peer-to-peer spine ───────────────────────────────────────────────────────

/// Configuration for the peer-to-peer spine.
#[derive(Debug, Clone, PartialEq, Eq)]
pub struct P2pConfig {
    /// Unique identifier for this node in the mesh.
    pub node_id: String,
    /// The local address the TCP server binds to.
    pub bind_host: String,
    /// TCP port for incoming tool-call connections.
    pub tcp_port: u16,
    /// UDP port for peer discovery broadcasts.
    pub discovery_port: u16,
    /// Seconds after which a silent peer is dropped from the registry.
    pub peer_timeout_secs: u64,
    /// Seconds to wait for a remote peer's tool call result.
    pub tool_timeout_secs: u64,
    /// Seconds between presence announcements.
    pub announce_interval_secs: u64,
}

/// A lowercase hexadecimal digit.
pub open spec fn is_lower_hex(c: char) -> bool {
    ('0' <= c && c <= '9') || ('a' <= c && c <= 'f')
}

/// Calls `uuid::Uuid::new_v4` and formats it; the text of a `Uuid` is its
/// hyphenated lowercase form, 36 characters whose first 8 are hex digits.
/// The value itself is random and nothing else is promised of it.
#[verifier::external_body]
pub(crate) fn random_uuid_text() -> (s: String)
    ensures
        s@.len() == 36,
        forall|i: int| 0 <= i < 8 ==> is_lower_hex(#[trigger] s@[i]),
{
    uuid::Uuid::new_v4().to_string()
}

/// A fresh node id: `obc-node-` and 8 random lowercase hex digits.
pub fn default_p2p_node_id() -> (id: String)
    ensures
        id@.len() == 17,
        id@.take(9) == "obc-node-"@,
        forall|i: int| 9 <= i < 17 ==> is_lower_hex(#[trigger] id@[i]),
{
    proof {
        reveal_strlit("obc-node-");
    }
    let u = chars_of(random_uuid_text().as_str());
    let mut v = chars_of("obc-node-");
    let mut i: usize = 0;
    while i < 8
        invariant
            i <= 8,
            u@.len() == 36,
            forall|k: int| 0 <= k < 8 ==> is_lower_hex(#[trigger] u@[k]),
            v@ == "obc-node-"@ + u@.take(i as int),
        decreases 8 - i,
    {
        v.push(u[i]);
        assert(u@.take(i + 1) == u@.take(i as int).push(u@[i as int]));
        i = i + 1;
    }
    assert(v@.take(9) =~= "obc-node-"@);
    assert forall|k: int| 9 <= k < 17 implies is_lower_hex(#[trigger] v@[k]) by {
        assert(v@[k] == u@[k - 9]);
    }
    string_of(&v)
}

/// The default bind address: all interfaces.
pub fn default_p2p_bind_host() -> (h: String)
    ensures
        h@ == "0.0.0.0"@,
{
    string_of(&chars_of("0.0.0.0"))
}

/// The default TCP port for tool calls.
pub fn default_p2p_tcp_port() -> (p: u16)
    ensures
        p == 44445,
{
    44445
}

/// The default UDP port for discovery.
pub fn default_p2p_discovery_port() -> (p: u16)
    ensures
        p == 44444,
{
    44444
}

/// The default peer timeout, in seconds.
pub fn default_p2p_peer_timeout_secs() -> (s: u64)
    ensures
        s == 60,
{
    60
}

/// The default tool call timeout, in seconds.
pub fn default_p2p_tool_timeout_secs() -> (s: u64)
    ensures
        s == 30,
{
    30
}

/// The default interval between announcements, in seconds.
pub fn default_p2p_announce_interval_secs() -> (s: u64)
    ensures
        s == 10,
{
    10
}

impl Default for P2pConfig {
    fn default() -> (c: Self)
        ensures
            c.node_id@.take(9) == "obc-node-"@,
            c.node_id@.len() == 17,
            c.bind_host@ == "0.0.0.0"@,
            c.tcp_port == 44445,
            c.discovery_port == 44444,
            c.peer_timeout_secs == 60,
            c.tool_timeout_secs == 30,
            c.announce_interval_secs == 10,
    {
        P2pConfig {
            node_id: default_p2p_node_id(),
            bind_host: default_p2p_bind_host(),
            tcp_port: default_p2p_tcp_port(),
            discovery_port: default_p2p_discovery_port(),
            peer_timeout_secs: default_p2p_peer_timeout_secs(),
            tool_timeout_secs: default_p2p_tool_timeout_secs(),
            announce_interval_secs: default_p2p_announce_interval_secs(),
        }
    }
}

/// `host:port`.
pub open spec fn socket_text(host: Seq<char>, port: u16) -> Seq<char> {
    host + seq![':'] + decimal(port as nat)
}

/// The address the TCP server listens on.
pub fn p2p_listen_addr(config: &P2pConfig) -> (a: String)
    ensures
        a@ == socket_text(config.bind_host@, config.tcp_port),
{
    let mut v = chars_of(config.bind_host.as_str());
    v.push(':');
    push_decimal(&mut v, config.tcp_port as u64);
    string_of(&v)
}

/// The address the discovery socket binds to: all interfaces at `port`.
pub fn discovery_bind_addr(port: u16) -> (a: String)
    ensures
        a@ == socket_text("0.0.0.0"@, port),
{
    let mut v = chars_of("0.0.0.0");
    v.push(':');
    push_decimal(&mut v, port as u64);
    string_of(&v)
}

/// The host to dial a discovered peer at: the host it announced, unless it
/// announced the bind-all address, in which case the datagram's source.
pub fn peer_dial_host(announced: &str, source_ip: &str) -> (h: String)
    ensures
        h@ == if announced@ == "0.0.0.0"@ {
            source_ip@
        } else {
            announced@
        },
{
    let a = chars_of(announced);
    let z = chars_of("0.0.0.0");
    if crate::text::chars_eq(&a, &z) {
        source_ip.to_string()
    } else {
        announced.to_string()
    }
}

/// Whether a peer last heard `elapsed_secs` ago is still kept.
pub fn peer_alive(elapsed_secs: u64, peer_timeout_secs: u64) -> (b: bool)
    ensures
        b == (elapsed_secs < peer_timeout_secs),
{
    elapsed_secs < peer_timeout_secs
}

/// Maximum permitted size of a single peer-to-peer frame (1 MiB).
pub const MAX_FRAME_SIZE: usize = 1048576;

/// The value of a 4-byte big-endian length prefix.
pub open spec fn be_u32(h: Seq<u8>) -> nat {
    (h[0] as nat) * 16777216 + (h[1] as nat) * 65536 + (h[2] as nat) * 256 + (h[3] as nat)
}

/// The 4-byte big-endian length prefix of a frame carrying `payload_len`
/// bytes (the length is taken modulo 2^32).
pub fn frame_header(payload_len: usize) -> (h: [u8; 4])
    ensures
        be_u32(h@) == payload_len as nat % 4294967296,
        h@.len() == 4,
{
    let n: u64 = (payload_len as u64) % 4294967296;
    let b0: u8 = (n / 16777216) as u8;
    let b1: u8 = ((n / 65536) % 256) as u8;
    let b2: u8 = ((n / 256) % 256) as u8;
    let b3: u8 = (n % 256) as u8;
    let h = [b0, b1, b2, b3];
    assert(h@[0] == b0 && h@[1] == b1 && h@[2] == b2 && h@[3] == b3);
    assert(b0 * 16777216 + b1 * 65536 + b2 * 256 + b3 == n) by (nonlinear_arith)
        requires
            n < 4294967296,
            b0 == n / 16777216,
            b1 == (n / 65536) % 256,
            b2 == (n / 256) % 256,
            b3 == n % 256,
    ;
    h
}

/// Why a frame was refused.
#[derive(Debug, Clone, PartialEq, Eq)]
pub enum FrameError {
    /// The announced payload is larger than [`MAX_FRAME_SIZE`].
    TooLarge { len: u32 },
}

impl FrameError {
    /// The human-readable message.
    pub fn message(&self) -> (s: String)
        ensures
            match self {
                FrameError::TooLarge { len } => s@ == "P2P frame too large: "@ + decimal(*len as nat)
                    + " bytes"@,
            },
    {
        match self {
            FrameError::TooLarge { len } => {
                let mut v = chars_of("P2P frame too large: ");
                push_decimal(&mut v, *len as u64);
                extend_str(&mut v, " bytes");
                string_of(&v)
            },
        }
    }
}

/// The payload length a received 4-byte prefix announces, refused above
/// [`MAX_FRAME_SIZE`].
pub fn frame_len(header: [u8; 4]) -> (r: Result<usize, FrameError>)
    ensures
        match r {
            Ok(n) => n == be_u32(header@) && n <= MAX_FRAME_SIZE,
            Err(FrameError::TooLarge { len }) => len == be_u32(header@) && len > MAX_FRAME_SIZE,
        },
{
    let len: u32 = (header[0] as u32) * 16777216 + (header[1] as u32) * 65536 + (header[2] as u32)
        * 256 + (header[3] as u32);
    if len as usize > MAX_FRAME_SIZE {
        Err(FrameError::TooLarge { len })
    } else {
        Ok(len as usize)
    }
}

/// A frame's length prefix reads back as the length it was written with,
/// for every payload the receiver accepts.
pub proof fn lemma_frame_roundtrip(payload_len: usize, h: Seq<u8>)
    requires
        payload_len <= MAX_FRAME_SIZE,
        be_u32(h) == payload_len as nat % 4294967296,
    ensures
        be_u32(h) == payload_len,
        be_u32(h) <= MAX_FRAME_SIZE,
{
}

} // verus!
