//! Host-side LoRa mesh gateway bridge: parsing of the base station's console.
//!
//! The base station prints each spine message it hears as a line like
//!
//! ```text
//! SPINE ◄ src=28 seq=30 rssi=-42 dBm : {"type":"reflex","node_id":"obc-esp32-s3-001",...}
//! ```
//!
//! This module parses the `SPINE ◄ … : <payload>` format (any log prefix or
//! trailing ANSI escape is tolerated) and summarises what a node message
//! contributes: which node it came from, of which type, at which link quality.

use vstd::prelude::*;

use crate::install_policy::hex_digit_lower;
use crate::json::{
    json_as_str, json_clone, json_get, json_text, json_text_of, json_view, JsonValue, JsonView,
};
use crate::text::{
    char_is_digit, char_is_hex_digit, chars_of, find, find_from, is_digit, is_hex_digit,
    lemma_find_from_some, parse_digits_bounded, parse_hex_u8, parse_i32, slice_chars,
    spec_parse_hex_u8, spec_parse_i32, spec_parse_unsigned, string_of, trim, trimmed, decimal,
    signed_decimal, hex_upper_padded, push_decimal, push_signed_decimal, push_hex_upper, extend_str,
    chars_eq,
};

verus! {

broadcast use vstd::string::group_string_axioms;

/// One received frame as reported by a gateway `SPINE ◄` console line.
#[derive(Debug, Clone, PartialEq)]
pub struct GatewayFrame {
    /// Originating node id (low byte of its MAC), from `src=` (hex).
    pub src: u8,
    /// Per-source sequence, from `seq=`.
    pub seq: u8,
    /// Received signal strength in dBm, from `rssi=`.
    pub rssi_dbm: i32,
    /// The raw node payload after the ` : ` delimiter (expected to be JSON).
    pub payload: String,
}

/// A summary of what a node message contributes to the world model.
#[derive(Debug, Clone, PartialEq)]
pub struct GatewayIngest {
    /// The node the message came from (`node_id` field, or `mesh-<src>` fallback).
    pub node_id: String,
    /// The message `type` (`reflex`, `link_state`, `power_mode`, `gw_keepalive`, …).
    pub msg_type: String,
    /// Link quality at the gateway.
    pub rssi_dbm: i32,
}

/// The characters a field token may consist of.
#[derive(Debug, Clone, Copy, PartialEq, Eq, Structural)]
pub enum TokenChars {
    /// ASCII hexadecimal digits.
    HexDigits,
    /// ASCII decimal digits.
    Digits,
    /// ASCII decimal digits and `-`.
    SignedDigits,
}

pub open spec fn token_char(kind: TokenChars, c: char) -> bool {
    match kind {
        TokenChars::HexDigits => is_hex_digit(c),
        TokenChars::Digits => is_digit(c),
        TokenChars::SignedDigits => c == '-' || is_digit(c),
    }
}

/// The index of the first character at or after `i` that is not a token
/// character (`s.len()` if there is none).
pub open spec fn token_end(s: Seq<char>, kind: TokenChars, i: int) -> int
    decreases s.len() - i,
{
    if i < 0 || i >= s.len() {
        s.len() as int
    } else if !token_char(kind, s[i]) {
        i
    } else {
        token_end(s, kind, i + 1)
    }
}

proof fn lemma_token_end(s: Seq<char>, kind: TokenChars, i: int)
    requires
        0 <= i <= s.len(),
    ensures
        i <= token_end(s, kind, i) <= s.len(),
        forall|j: int| i <= j < token_end(s, kind, i) ==> token_char(kind, #[trigger] s[j]),
        token_end(s, kind, i) < s.len() ==> !token_char(kind, s[token_end(s, kind, i)]),
    decreases s.len() - i,
{
    if i < s.len() && token_char(kind, s[i]) {
        lemma_token_end(s, kind, i + 1);
    }
}

/// The leading run of `s` made of token characters.
pub open spec fn leading_run(s: Seq<char>, kind: TokenChars) -> Seq<char> {
    s.take(token_end(s, kind, 0))
}

/// The rest of `s` right after the first occurrence of `key`.
pub open spec fn spec_field_after(s: Seq<char>, key: Seq<char>) -> Option<Seq<char>> {
    match find_from(s, key, 0) {
        Some(i) => Some(s.skip(i + key.len())),
        None => None,
    }
}

/// `s` up to its first ESC character.
pub open spec fn before_escape(s: Seq<char>) -> Seq<char> {
    match find_from(s, seq!['\u{1b}'], 0) {
        Some(i) => s.take(i),
        None => s,
    }
}

/// The frame a console line reports, as `(src, seq, rssi, payload)`: only for
/// received (`SPINE ◄`) lines whose three fields parse and whose payload is
/// not empty.
pub open spec fn spec_gateway_frame(line: Seq<char>) -> Option<(u8, u8, i32, Seq<char>)> {
    match find_from(line, "SPINE ◄"@, 0) {
        None => None,
        Some(start) => {
            let rest = line.skip(start);
            match (
                spec_field_after(rest, "src="@),
                spec_field_after(rest, "seq="@),
                spec_field_after(rest, "rssi="@),
                find_from(rest, " : "@, 0),
            ) {
                (Some(a), Some(b), Some(c), Some(p)) => match (
                    spec_parse_hex_u8(leading_run(a, TokenChars::HexDigits)),
                    spec_parse_unsigned(leading_run(b, TokenChars::Digits), 255),
                    spec_parse_i32(leading_run(c, TokenChars::SignedDigits)),
                ) {
                    (Some(src), Some(seq), Some(rssi)) => {
                        let payload = trim(before_escape(rest.skip(p + 3)));
                        if payload.len() == 0 {
                            None
                        } else {
                            Some((src, seq as u8, rssi, payload))
                        }
                    },
                    _ => None,
                },
                _ => None,
            }
        },
    }
}

fn is_token_char(kind: TokenChars, c: char) -> (b: bool)
    ensures
        b == token_char(kind, c),
{
    match kind {
        TokenChars::HexDigits => char_is_hex_digit(c),
        TokenChars::Digits => char_is_digit(c),
        TokenChars::SignedDigits => c == '-' || char_is_digit(c),
    }
}

/// The leading run of `s` whose characters are token characters of `kind`.
pub fn leading(s: &[char], kind: TokenChars) -> (r: Vec<char>)
    ensures
        r@ == leading_run(s@, kind),
{
    let mut i: usize = 0;
    while i < s.len() && is_token_char(kind, s[i])
        invariant
            i <= s.len(),
            token_end(s@, kind, 0) == token_end(s@, kind, i as int),
        decreases s.len() - i,
    {
        i = i + 1;
    }
    slice_chars(s, 0, i)
}

/// The characters of `s` right after the first occurrence of `key`.
pub fn field_after(s: &[char], key: &[char]) -> (r: Option<Vec<char>>)
    ensures
        match r {
            Some(t) => spec_field_after(s@, key@) == Some(t@),
            None => spec_field_after(s@, key@) is None,
        },
{
    match find(s, key, 0) {
        Some(i) => {
            proof {
                lemma_find_from_some(s@, key@, 0);
            }
            let n = s.len();
            assert(i + key@.len() <= n);
            Some(slice_chars(s, i + key.len(), n))
        },
        None => None,
    }
}

/// Parses a gateway console line, returning the frame only for received
/// (`◄`) messages. Transmit lines (`►`), relay lines (`⇒`), malformed-frame
/// notices and boot logs give `None`. A log prefix or ANSI escape around the
/// line is tolerated: parsing anchors on the `SPINE ◄` marker and the ` : `
/// payload delimiter, and the payload ends at the first ESC.
pub fn parse_gateway_line(line: &str) -> (r: Option<GatewayFrame>)
    ensures
        match r {
            Some(f) => spec_gateway_frame(line@) == Some((f.src, f.seq, f.rssi_dbm, f.payload@)),
            None => spec_gateway_frame(line@) is None,
        },
{
    proof {
        reveal_strlit("SPINE ◄");
        reveal_strlit("src=");
        reveal_strlit("seq=");
        reveal_strlit("rssi=");
        reveal_strlit(" : ");
    }
    let l = chars_of(line);
    let start = match find(&l, &chars_of("SPINE ◄"), 0) {
        Some(s) => s,
        None => return None,
    };
    proof {
        lemma_find_from_some(l@, "SPINE ◄"@, 0);
    }
    let rest = slice_chars(&l, start, l.len());
    assert(rest@ == line@.skip(start as int));
    let a = match field_after(&rest, &chars_of("src=")) {
        Some(a) => a,
        None => return None,
    };
    let b = match field_after(&rest, &chars_of("seq=")) {
        Some(b) => b,
        None => return None,
    };
    let c = match field_after(&rest, &chars_of("rssi=")) {
        Some(c) => c,
        None => return None,
    };
    let p = match find(&rest, &chars_of(" : "), 0) {
        Some(p) => p,
        None => return None,
    };
    proof {
        lemma_find_from_some(rest@, " : "@, 0);
    }
    let src = match parse_hex_u8(&leading(&a, TokenChars::HexDigits)) {
        Some(v) => v,
        None => return None,
    };
    let seq_run = leading(&b, TokenChars::Digits);
    proof {
        lemma_token_end(b@, TokenChars::Digits, 0);
        if seq_run@.len() > 0 {
            assert(token_char(TokenChars::Digits, b@[0]));
        }
    }
    let seq = match parse_digits_bounded(&seq_run, 0, 255) {
        Some(v) => v as u8,
        None => {
            assert(seq_run@.subrange(0, seq_run@.len() as int) == seq_run@);
            assert(seq_run@.len() == 0 || seq_run@[0] != '+');
            return None;
        },
    };
    proof {
        assert(seq_run@.subrange(0, seq_run@.len() as int) == seq_run@);
        assert(seq_run@[0] != '+');
    }
    let rssi = match parse_i32(&leading(&c, TokenChars::SignedDigits)) {
        Some(v) => v,
        None => return None,
    };
    let tail = slice_chars(&rest, p + 3, rest.len());
    let cut = match find(&tail, &['\u{1b}'], 0) {
        Some(e) => e,
        None => tail.len(),
    };
    proof {
        let esc: Seq<char> = seq!['\u{1b}'];
        assert([ '\u{1b}' ]@ == esc);
        if find_from(tail@, esc, 0) is Some {
            lemma_find_from_some(tail@, esc, 0);
        } else {
            assert(tail@.take(tail@.len() as int) == tail@);
        }
    }
    let body = slice_chars(&tail, 0, cut);
    assert(body@ == before_escape(tail@));
    let payload = trimmed(&body);
    if payload.len() == 0 {
        return None;
    }
    Some(GatewayFrame { src, seq, rssi_dbm: rssi, payload: string_of(&payload) })
}

/// `mesh-` and the source byte in two lowercase hex digits.
pub open spec fn fallback_node_id(src: u8) -> Seq<char> {
    "mesh-"@ + seq![hex_digit_lower((src / 16) as nat), hex_digit_lower((src % 16) as nat)]
}

fn hex_digit_lower_char(d: u8) -> (c: char)
    requires
        d < 16,
    ensures
        c == hex_digit_lower(d as nat),
{
    proof {
        reveal_with_fuel(crate::text::decimal, 2);
    }
    if d == 0 {
        '0'
    } else if d == 1 {
        '1'
    } else if d == 2 {
        '2'
    } else if d == 3 {
        '3'
    } else if d == 4 {
        '4'
    } else if d == 5 {
        '5'
    } else if d == 6 {
        '6'
    } else if d == 7 {
        '7'
    } else if d == 8 {
        '8'
    } else if d == 9 {
        '9'
    } else if d == 10 {
        'a'
    } else if d == 11 {
        'b'
    } else if d == 12 {
        'c'
    } else if d == 13 {
        'd'
    } else if d == 14 {
        'e'
    } else {
        'f'
    }
}

/// The node a message came from: its `node_id`, or `mesh-<src>` when it
/// has none.
pub open spec fn message_node_id(frame: GatewayFrame, payload: JsonValue) -> Seq<char> {
    match json_get(payload, "node_id"@) {
        Some(v) => match json_as_str(v) {
            Some(s) => s,
            None => fallback_node_id(frame.src),
        },
        None => fallback_node_id(frame.src),
    }
}

/// The type of a message, `status` when it has none.
pub open spec fn message_type(payload: JsonValue) -> Seq<char> {
    match json_get(payload, "type"@) {
        Some(v) => match json_as_str(v) {
            Some(s) => s,
            None => "status"@,
        },
        None => "status"@,
    }
}

/// What a node's own JSON message contributes: the node (its `node_id`, or
/// `mesh-<src>` when it has none), the message type (`status` when it has
/// none) and the link quality of the frame.
pub fn node_message_summary(frame: &GatewayFrame, payload: &JsonValue) -> (r: GatewayIngest)
    ensures
        r.node_id@ == message_node_id(*frame, *payload),
        r.msg_type@ == message_type(*payload),
        r.rssi_dbm == frame.rssi_dbm,
{
    proof {
        reveal_strlit("mesh-");
        reveal_strlit("status");
    }
    let node_id = match payload.get("node_id") {
        Some(v) => match v.as_str() {
            Some(s) => s.to_string(),
            None => {
                let mut id = chars_of("mesh-");
                id.push(hex_digit_lower_char(frame.src / 16));
                id.push(hex_digit_lower_char(frame.src % 16));
                assert(id@ =~= fallback_node_id(frame.src));
                string_of(&id)
            },
        },
        None => {
            let mut id = chars_of("mesh-");
            id.push(hex_digit_lower_char(frame.src / 16));
            id.push(hex_digit_lower_char(frame.src % 16));
            assert(id@ =~= fallback_node_id(frame.src));
            string_of(&id)
        },
    };
    let msg_type = match payload.get("type") {
        Some(v) => match v.as_str() {
            Some(s) => s.to_string(),
            None => string_of(&chars_of("status")),
        },
        None => string_of(&chars_of("status")),
    };
    GatewayIngest { node_id, msg_type, rssi_dbm: frame.rssi_dbm }
}


/// A command addressed to a specific node, carried over the mesh.
#[derive(Debug, PartialEq)]
pub struct NodeCommand {
    /// Target node id — the node executes only if this matches its own id.
    pub to: String,
    /// Correlation id; the node echoes it in its response.
    pub id: String,
    /// The node command, e.g. `"gpio_write"`, `"capabilities"`.
    pub cmd: String,
    /// Command arguments.
    pub args: JsonValue,
}

impl NodeCommand {
    /// A command for `to`, tagged with correlation `id`.
    pub fn new(to: String, id: String, cmd: String, args: JsonValue) -> (c: Self)
        ensures
            c.to == to,
            c.id == id,
            c.cmd == cmd,
            c.args == args,
    {
        NodeCommand { to, id, cmd, args }
    }
}


// ── Recording a node message ─────────────────────────────────────────────────

/// The mesh envelope of a frame: its link quality, sequence and source
/// (two uppercase hex digits).
pub open spec fn mesh_meta_view(frame: GatewayFrame) -> JsonView {
    JsonView::Object(
        seq![
            ("rssi_dbm"@, JsonView::Number(signed_decimal(frame.rssi_dbm as int))),
            ("seq"@, JsonView::Number(decimal(frame.seq as nat))),
            ("src"@, JsonView::Str(hex_upper_padded(frame.src as nat, 2))),
        ],
    )
}

/// The members of `f[..n]` not named `key`, in order.
pub open spec fn members_without(f: Seq<(Seq<char>, JsonView)>, key: Seq<char>, n: int) -> Seq<
    (Seq<char>, JsonView),
>
    decreases n,
{
    if n <= 0 || n > f.len() {
        seq![]
    } else if f[n - 1].0 == key {
        members_without(f, key, n - 1)
    } else {
        members_without(f, key, n - 1).push(f[n - 1])
    }
}

/// A node payload with the mesh envelope set as its `_mesh` member (a
/// payload that is not an object is kept as it is). Serialised objects are
/// key-sorted, so where the member stands is immaterial.
pub open spec fn with_envelope(payload: JsonView, meta: JsonView) -> JsonView {
    match payload {
        JsonView::Object(f) => JsonView::Object(
            members_without(f, "_mesh"@, f.len() as int).push(("_mesh"@, meta)),
        ),
        other => other,
    }
}

/// The link rollup of a node: the frame's link quality, sequence, source
/// and the type of the last message heard.
pub open spec fn link_rollup_view(frame: GatewayFrame, msg_type: Seq<char>) -> JsonView {
    JsonView::Object(
        seq![
            ("last_type"@, JsonView::Str(msg_type)),
            ("rssi_dbm"@, JsonView::Number(signed_decimal(frame.rssi_dbm as int))),
            ("seq"@, JsonView::Number(decimal(frame.seq as nat))),
            ("src"@, JsonView::Str(hex_upper_padded(frame.src as nat, 2))),
        ],
    )
}

/// The two facts a node message is recorded as.
#[derive(Debug, PartialEq)]
pub struct NodeMessageFacts {
    /// Who sent what, at which link quality.
    pub ingest: GatewayIngest,
    /// `mesh.<node>.<type>`: the payload with its mesh envelope.
    pub message: (String, JsonValue),
    /// `mesh.<node>`: the node's liveness and link rollup.
    pub rollup: (String, JsonValue),
}

fn frame_values(frame: &GatewayFrame) -> (r: (JsonValue, JsonValue, JsonValue))
    ensures
        json_view(r.0) == JsonView::Number(signed_decimal(frame.rssi_dbm as int)),
        json_view(r.1) == JsonView::Number(decimal(frame.seq as nat)),
        json_view(r.2) == JsonView::Str(hex_upper_padded(frame.src as nat, 2)),
{
    let mut r: Vec<char> = Vec::new();
    push_signed_decimal(&mut r, frame.rssi_dbm as i64);
    let mut q: Vec<char> = Vec::new();
    push_decimal(&mut q, frame.seq as u64);
    let mut h: Vec<char> = Vec::new();
    push_hex_upper(&mut h, frame.src as u32, 2);
    (JsonValue::Number(string_of(&r)), JsonValue::Number(string_of(&q)), JsonValue::String(string_of(&h)))
}

fn mesh_meta(frame: &GatewayFrame) -> (v: JsonValue)
    ensures
        json_view(v) == mesh_meta_view(*frame),
{
    let (r, q, h) = frame_values(frame);
    let fields = vec![
        ("rssi_dbm".to_string(), r),
        ("seq".to_string(), q),
        ("src".to_string(), h),
    ];
    proof {
        crate::json::lemma_fields_index(fields@);
        assert(crate::json::fields_view(fields@, 0) =~= mesh_meta_view(*frame)->Object_0);
    }
    JsonValue::Object(fields)
}

fn enveloped(payload: &JsonValue, meta: JsonValue) -> (v: JsonValue)
    ensures
        json_view(v) == with_envelope(json_view(*payload), json_view(meta)),
{
    match payload {
        JsonValue::Object(fields) => {
            let ghost fv = crate::json::fields_view(fields@, 0);
            proof {
                crate::json::lemma_fields_index(fields@);
            }
            let key = chars_of("_mesh");
            let mut out: Vec<(String, JsonValue)> = Vec::new();
            let mut i: usize = 0;
            while i < fields.len()
                invariant
                    i <= fields.len(),
                    key@ == "_mesh"@,
                    fv == crate::json::fields_view(fields@, 0),
                    fv.len() == fields@.len(),
                    forall|k: int| 0 <= k < fields@.len() ==> #[trigger] fv[k] == (fields@[k].0@, json_view(fields@[k].1)),
                    out@.len() == members_without(fv, "_mesh"@, i as int).len(),
                    forall|k: int| 0 <= k < out@.len() ==> (#[trigger] out@[k].0@, json_view(out@[k].1))
                        == members_without(fv, "_mesh"@, i as int)[k],
                decreases fields.len() - i,
            {
                let name = chars_of(fields[i].0.as_str());
                if !chars_eq(&name, &key) {
                    out.push((fields[i].0.clone(), json_clone(&fields[i].1)));
                }
                i = i + 1;
            }
            let ghost before = out@;
            out.push(("_mesh".to_string(), meta));
            proof {
                crate::json::lemma_fields_index(out@);
                assert forall|k: int| 0 <= k < before.len() implies (#[trigger] out@[k]) == before[k] by {}
                assert(crate::json::fields_view(out@, 0) =~= members_without(
                    fv,
                    "_mesh"@,
                    fv.len() as int,
                ).push(("_mesh"@, json_view(meta))));
            }
            JsonValue::Object(out)
        },
        other => json_clone(other),
    }
}

/// The facts recording a node's JSON message heard in `frame`: the message
/// under `mesh.<node>.<type>` with the frame's envelope as its `_mesh`
/// member, and the node's link rollup under `mesh.<node>` (node and type as
/// [`node_message_summary`] gives them).
pub fn node_message_facts(frame: &GatewayFrame, payload: &JsonValue) -> (r: NodeMessageFacts)
    ensures
        r.ingest.node_id@ == message_node_id(*frame, *payload),
        r.ingest.msg_type@ == message_type(*payload),
        r.ingest.rssi_dbm == frame.rssi_dbm,
        r.message.0@ == "mesh."@ + r.ingest.node_id@ + "."@ + r.ingest.msg_type@,
        json_view(r.message.1) == with_envelope(json_view(*payload), mesh_meta_view(*frame)),
        r.rollup.0@ == "mesh."@ + r.ingest.node_id@,
        json_view(r.rollup.1) == link_rollup_view(*frame, r.ingest.msg_type@),
{
    let ingest = node_message_summary(frame, payload);
    let mut e = chars_of("mesh.");
    extend_str(&mut e, ingest.node_id.as_str());
    let rollup_entity = string_of(&e);
    e.push('.');
    extend_str(&mut e, ingest.msg_type.as_str());
    proof {
        reveal_strlit(".");
        assert(e@ =~= "mesh."@ + ingest.node_id@ + "."@ + ingest.msg_type@);
    }
    let message_entity = string_of(&e);
    let message = enveloped(payload, mesh_meta(frame));
    let (rf, qf, sf) = frame_values(frame);
    let fields = vec![
        ("last_type".to_string(), JsonValue::String(ingest.msg_type.clone())),
        ("rssi_dbm".to_string(), rf),
        ("seq".to_string(), qf),
        ("src".to_string(), sf),
    ];
    proof {
        crate::json::lemma_fields_index(fields@);
        assert(crate::json::fields_view(fields@, 0) =~= link_rollup_view(*frame, ingest.msg_type@)->Object_0);
    }
    NodeMessageFacts {
        ingest,
        message: (message_entity, message),
        rollup: (rollup_entity, JsonValue::Object(fields)),
    }
}

/// The request line of a command: `{"args":…,"cmd":…,"id":…,"to":…}`.
pub open spec fn command_view(c: NodeCommand) -> JsonView {
    JsonView::Object(
        seq![
            ("args"@, json_view(c.args)),
            ("cmd"@, JsonView::Str(c.cmd@)),
            ("id"@, JsonView::Str(c.id@)),
            ("to"@, JsonView::Str(c.to@)),
        ],
    )
}

impl NodeCommand {
    /// The single line the gateway carries over LoRa and the node feeds to
    /// its request dispatcher: the command as compact JSON.
    pub fn encode(&self) -> (s: String)
        ensures
            s@ == json_text_of(command_view(*self)),
    {
        let fields = vec![
            ("args".to_string(), json_clone(&self.args)),
            ("cmd".to_string(), JsonValue::String(self.cmd.clone())),
            ("id".to_string(), JsonValue::String(self.id.clone())),
            ("to".to_string(), JsonValue::String(self.to.clone())),
        ];
        proof {
            crate::json::lemma_fields_index(fields@);
            assert(crate::json::fields_view(fields@, 0) =~= command_view(*self)->Object_0);
        }
        json_text(&JsonValue::Object(fields))
    }
}

// ── Console line framing ─────────────────────────────────────────────────────

/// The longest console line kept; a longer one is discarded as runaway.
pub const MAX_CONSOLE_LINE: usize = 4096;

/// One console byte through the line framer: `\n` or `\r` ends the line
/// being read (an empty one is not reported); any other byte extends it, and
/// a line growing past [`MAX_CONSOLE_LINE`] bytes is discarded.
pub open spec fn frame_step(line: Seq<u8>, done: Seq<Seq<u8>>, b: u8) -> (Seq<u8>, Seq<Seq<u8>>) {
    if b == 10 || b == 13 {
        if line.len() > 0 {
            (seq![], done.push(line))
        } else {
            (line, done)
        }
    } else if line.len() + 1 > MAX_CONSOLE_LINE {
        (seq![], done)
    } else {
        (line.push(b), done)
    }
}

/// The framer's state after the bytes `bytes[..n]`, from `line` with no
/// line reported yet.
pub open spec fn frame_bytes(line: Seq<u8>, bytes: Seq<u8>, n: int) -> (Seq<u8>, Seq<Seq<u8>>)
    decreases n,
{
    if n <= 0 || n > bytes.len() {
        (line, seq![])
    } else {
        let prev = frame_bytes(line, bytes, n - 1);
        frame_step(prev.0, prev.1, bytes[n - 1])
    }
}

/// Splits the gateway console's byte stream into lines.
#[derive(Debug)]
pub struct LineFramer {
    line: Vec<u8>,
}

impl LineFramer {
    #[verifier::type_invariant]
    spec fn bounded(self) -> bool {
        self.line@.len() <= MAX_CONSOLE_LINE
    }

    /// The bytes of the line being read.
    pub closed spec fn pending(&self) -> Seq<u8> {
        self.line@
    }

    /// A framer at the start of a line.
    pub fn new() -> (f: Self)
        ensures
            f.pending() == Seq::<u8>::empty(),
    {
        LineFramer { line: Vec::new() }
    }

    /// Feeds `bytes` read from the console; returns the lines they complete,
    /// in order.
    pub fn push(&mut self, bytes: &[u8]) -> (lines: Vec<Vec<u8>>)
        ensures
            (final(self).pending(), lines@.map_values(|l: Vec<u8>| l@)) == frame_bytes(
                old(self).pending(),
                bytes@,
                bytes@.len() as int,
            ),
    {
        proof {
            use_type_invariant(&*self);
        }
        let ghost start = self.line@;
        let mut line: Vec<u8> = Vec::new();
        std::mem::swap(&mut line, &mut self.line);
        let mut out: Vec<Vec<u8>> = Vec::new();
        let mut i: usize = 0;
        while i < bytes.len()
            invariant
                i <= bytes.len(),
                line@.len() <= MAX_CONSOLE_LINE,
                (line@, out@.map_values(|l: Vec<u8>| l@)) == frame_bytes(start, bytes@, i as int),
            decreases bytes.len() - i,
        {
            let b = bytes[i];
            let ghost done = out@.map_values(|l: Vec<u8>| l@);
            if b == 10 || b == 13 {
                if line.len() > 0 {
                    let mut finished: Vec<u8> = Vec::new();
                    std::mem::swap(&mut finished, &mut line);
                    out.push(finished);
                    assert(out@.map_values(|l: Vec<u8>| l@) =~= done.push(frame_bytes(start, bytes@, i as int).0));
                }
            } else if line.len() + 1 > MAX_CONSOLE_LINE {
                line = Vec::new();
                assert(line@ =~= Seq::<u8>::empty());
            } else {
                line.push(b);
            }
            i = i + 1;
        }
        self.line = line;
        out
    }
}

} // verus!
