//! The broker-free spine's wire payloads and its registry of discovered
//! peers.
//!
//! Nodes announce themselves by UDP broadcast; each announcement heard
//! (re)registers its node under its id with the address to dial for tool
//! calls, and peers not heard from within the timeout are evicted.

use vstd::prelude::*;

use crate::json::{json_clone, json_view, JsonValue, JsonView};
use crate::text::chars_eq;

verus! {

broadcast use vstd::string::group_string_axioms;

/// A tool a node offers.
#[derive(Debug, PartialEq)]
pub struct NodeToolSpec {
    pub name: String,
    pub description: String,
    pub parameters: JsonValue,
}

/// What a node announces of itself.
#[derive(Debug, PartialEq)]
pub struct NodeAnnouncement {
    pub node_id: String,
    pub board: String,
    pub firmware_version: String,
    pub tools: Vec<NodeToolSpec>,
    pub metadata: JsonValue,
}

/// A tool call sent to a node.
#[derive(Debug, PartialEq)]
pub struct ToolCallRequest {
    pub call_id: String,
    pub tool_name: String,
    pub args: JsonValue,
}

/// The discovery datagram: a node's announcement and where to reach it.
#[derive(Debug, PartialEq)]
pub struct P2pAnnounce {
    pub announcement: NodeAnnouncement,
    /// The host peers should connect to for tool calls.
    pub tcp_host: String,
    /// The port peers should connect to for tool calls.
    pub tcp_port: u16,
}

/// A discovered peer: its announcement, the address to dial, and when it
/// was last heard (milliseconds of a monotonic clock).
#[derive(Debug, PartialEq)]
pub struct P2pPeer {
    pub announcement: NodeAnnouncement,
    pub tcp_host: String,
    pub tcp_port: u16,
    pub last_seen_ms: u64,
}

/// The content of a tool spec.
pub open spec fn tool_spec_view(t: NodeToolSpec) -> (Seq<char>, Seq<char>, JsonView) {
    (t.name@, t.description@, json_view(t.parameters))
}

/// The content of an announcement.
pub struct AnnouncementView {
    pub node_id: Seq<char>,
    pub board: Seq<char>,
    pub firmware_version: Seq<char>,
    pub tools: Seq<(Seq<char>, Seq<char>, JsonView)>,
    pub metadata: JsonView,
}

pub open spec fn announcement_view(a: NodeAnnouncement) -> AnnouncementView {
    AnnouncementView {
        node_id: a.node_id@,
        board: a.board@,
        firmware_version: a.firmware_version@,
        tools: a.tools@.map_values(|t: NodeToolSpec| tool_spec_view(t)),
        metadata: json_view(a.metadata),
    }
}

/// The content of a registered peer.
pub struct PeerView {
    pub announcement: AnnouncementView,
    pub host: Seq<char>,
    pub port: u16,
    pub last_seen_ms: u64,
}

pub open spec fn peer_view(p: P2pPeer) -> PeerView {
    PeerView {
        announcement: announcement_view(p.announcement),
        host: p.tcp_host@,
        port: p.tcp_port,
        last_seen_ms: p.last_seen_ms,
    }
}

/// The contents of a list of peers.
pub open spec fn peers_view(s: Seq<P2pPeer>) -> Seq<PeerView> {
    s.map_values(|p: P2pPeer| peer_view(p))
}

/// The position of the peer `id` among `peers[j..]`.
pub open spec fn peer_index(peers: Seq<PeerView>, id: Seq<char>, j: int) -> Option<int>
    decreases peers.len() - j,
{
    if j < 0 || j >= peers.len() {
        None
    } else if peers[j].announcement.node_id == id {
        Some(j)
    } else {
        peer_index(peers, id, j + 1)
    }
}

/// No two peers share a node id.
pub open spec fn distinct_ids(peers: Seq<PeerView>) -> bool {
    forall|a: int, b: int|
        0 <= a < b < peers.len() ==> (#[trigger] peers[a]).announcement.node_id
            != (#[trigger] peers[b]).announcement.node_id
}

/// Whether a peer last heard at `seen` is kept at `now`: fewer than
/// `timeout_secs` whole seconds have passed.
pub open spec fn peer_fresh(now: u64, seen: u64, timeout_secs: u64) -> bool {
    (if now >= seen {
        (now - seen) / 1000
    } else {
        0
    }) < timeout_secs
}

/// The peers among `peers[..n]` kept at `now`, in order.
pub open spec fn fresh_peers(peers: Seq<PeerView>, now: u64, timeout_secs: u64, n: int) -> Seq<
    PeerView,
>
    decreases n,
{
    if n <= 0 || n > peers.len() {
        seq![]
    } else if peer_fresh(now, peers[n - 1].last_seen_ms, timeout_secs) {
        fresh_peers(peers, now, timeout_secs, n - 1).push(peers[n - 1])
    } else {
        fresh_peers(peers, now, timeout_secs, n - 1)
    }
}

/// The registry after hearing `p`: the peer of that id replaced, or `p`
/// added at the end.
pub open spec fn registered(peers: Seq<PeerView>, p: PeerView) -> Seq<PeerView> {
    match peer_index(peers, p.announcement.node_id, 0) {
        Some(k) => peers.update(k, p),
        None => peers.push(p),
    }
}

/// The peers discovered so far, one per node id.
#[derive(Debug)]
pub struct PeerRegistry {
    peers: Vec<P2pPeer>,
}

proof fn lemma_peer_index(peers: Seq<PeerView>, id: Seq<char>, j: int)
    requires
        0 <= j,
    ensures
        peer_index(peers, id, j) matches Some(k) ==> j <= k < peers.len() && peers[k].announcement.node_id
            == id,
        peer_index(peers, id, j) is None ==> forall|q: int|
            j <= q < peers.len() ==> (#[trigger] peers[q]).announcement.node_id != id,
    decreases peers.len() - j,
{
    if j < peers.len() && peers[j].announcement.node_id != id {
        lemma_peer_index(peers, id, j + 1);
    }
}

fn copy_announcement(a: &NodeAnnouncement) -> (r: NodeAnnouncement)
    ensures
        announcement_view(r) == announcement_view(*a),
{
    let mut tools: Vec<NodeToolSpec> = Vec::new();
    let mut i: usize = 0;
    while i < a.tools.len()
        invariant
            i <= a.tools.len(),
            tools@.len() == i,
            forall|k: int| 0 <= k < i ==> tool_spec_view(#[trigger] tools@[k]) == tool_spec_view(a.tools@[k]),
        decreases a.tools.len() - i,
    {
        let t = &a.tools[i];
        tools.push(
            NodeToolSpec {
                name: t.name.clone(),
                description: t.description.clone(),
                parameters: json_clone(&t.parameters),
            },
        );
        i = i + 1;
    }
    let r = NodeAnnouncement {
        node_id: a.node_id.clone(),
        board: a.board.clone(),
        firmware_version: a.firmware_version.clone(),
        tools,
        metadata: json_clone(&a.metadata),
    };
    assert(announcement_view(r).tools =~= announcement_view(*a).tools);
    r
}

impl PeerRegistry {
    #[verifier::type_invariant]
    spec fn ids_distinct(self) -> bool {
        distinct_ids(peers_view(self.peers@))
    }

    /// The registered peers, in the order they were first heard.
    pub closed spec fn peers_of(&self) -> Seq<PeerView> {
        peers_view(self.peers@)
    }

    /// An empty registry.
    pub fn new() -> (r: Self)
        ensures
            r.peers_of().len() == 0,
    {
        let r = PeerRegistry { peers: Vec::new() };
        assert(peers_view(r.peers@) =~= Seq::<PeerView>::empty());
        r
    }

    /// Registers the peer heard announcing `announcement`, reachable at
    /// `host:port`, at `now_ms`: the entry of that node id is replaced, or
    /// a new one is added.
    pub fn record(&mut self, announcement: NodeAnnouncement, host: String, port: u16, now_ms: u64)
        ensures
            final(self).peers_of() == registered(
                old(self).peers_of(),
                PeerView {
                    announcement: announcement_view(announcement),
                    host: host@,
                    port,
                    last_seen_ms: now_ms,
                },
            ),
    {
        proof {
            use_type_invariant(&*self);
        }
        let ghost old_view = peers_view(self.peers@);
        let ghost id = announcement.node_id@;
        let ghost pv = PeerView {
            announcement: announcement_view(announcement),
            host: host@,
            port,
            last_seen_ms: now_ms,
        };
        proof {
            lemma_peer_index(old_view, id, 0);
        }
        let mut j: usize = 0;
        let mut found = false;
        while !found && j < self.peers.len()
            invariant
                j <= self.peers.len(),
                old_view == peers_view(self.peers@),
                id == announcement.node_id@,
                found ==> j < self.peers.len() && peer_index(old_view, id, 0) == Some(j as int),
                !found ==> peer_index(old_view, id, 0) == peer_index(old_view, id, j as int),
            decreases self.peers.len() - j + if found { 0int } else { 1int },
        {
            assert(old_view[j as int] == peer_view(self.peers@[j as int]));
            if chars_eq(
                &crate::text::chars_of(self.peers[j].announcement.node_id.as_str()),
                &crate::text::chars_of(announcement.node_id.as_str()),
            ) {
                found = true;
            } else {
                j = j + 1;
            }
        }
        let peer = P2pPeer { announcement, tcp_host: host, tcp_port: port, last_seen_ms: now_ms };
        assert(peer_view(peer) == pv);
        let mut peers: Vec<P2pPeer> = Vec::new();
        std::mem::swap(&mut peers, &mut self.peers);
        assert(peers_view(peers@) == old_view);
        if found {
            peers.set(j, peer);
            assert(peers_view(peers@) =~= old_view.update(j as int, pv));
            assert forall|a: int, b: int| 0 <= a < b < peers_view(peers@).len() implies (#[trigger] peers_view(
                peers@,
            )[a]).announcement.node_id != (#[trigger] peers_view(peers@)[b]).announcement.node_id by {
                if a == j {
                    assert(old_view[a].announcement.node_id == id);
                } else if b == j {
                    assert(old_view[b].announcement.node_id == id);
                }
            }
        } else {
            peers.push(peer);
            assert(peers_view(peers@) =~= old_view.push(pv));
        }
        self.peers = peers;
    }

    /// Drops the peers not heard from within `timeout_secs` at `now_ms`.
    pub fn evict_stale(&mut self, now_ms: u64, timeout_secs: u64)
        ensures
            final(self).peers_of() == fresh_peers(
                old(self).peers_of(),
                now_ms,
                timeout_secs,
                old(self).peers_of().len() as int,
            ),
    {
        proof {
            use_type_invariant(&*self);
        }
        let ghost old_view = peers_view(self.peers@);
        let mut peers: Vec<P2pPeer> = Vec::new();
        std::mem::swap(&mut peers, &mut self.peers);
        let mut kept: Vec<P2pPeer> = Vec::new();
        let mut i: usize = 0;
        let total = peers.len();
        let ghost n = peers@.len();
        assert(n == total);
        while peers.len() > 0
            invariant
                peers@.len() + i == n,
                n == old_view.len(),
                n <= usize::MAX,
                peers_view(peers@) == old_view.skip(i as int),
                peers_view(kept@) == fresh_peers(old_view, now_ms, timeout_secs, i as int),
                distinct_ids(old_view),
                forall|a: int| 0 <= a < kept@.len() ==> exists|q: int| 0 <= q < i && #[trigger] peer_view(kept@[a]) == old_view[q],
            decreases peers.len(),
        {
            let ghost before = peers@;
            assert(peers_view(before)[0] == peer_view(before[0]));
            assert(old_view.skip(i as int)[0] == old_view[i as int]);
            let p = peers.remove(0);
            assert(peer_view(p) == old_view[i as int]);
            assert forall|k: int| 0 <= k < peers@.len() implies #[trigger] peers_view(peers@)[k] == old_view.skip(i + 1)[k] by {
                assert(peers@[k] == before[k + 1]);
                assert(peers_view(before)[k + 1] == peer_view(before[k + 1]));
                assert(old_view.skip(i as int)[k + 1] == old_view[i + 1 + k]);
            }
            assert(peers_view(peers@) =~= old_view.skip(i + 1));
            let elapsed: u64 = if now_ms >= p.last_seen_ms {
                (now_ms - p.last_seen_ms) / 1000
            } else {
                0
            };
            if elapsed < timeout_secs {
                let ghost before = kept@;
                kept.push(p);
                assert(peers_view(kept@) =~= peers_view(before).push(old_view[i as int]));
                assert forall|a: int| 0 <= a < kept@.len() implies exists|q: int| 0 <= q < i + 1 && #[trigger] peer_view(kept@[a]) == old_view[q] by {
                    if a < before.len() {
                        assert(kept@[a] == before[a]);
                    } else {
                        assert(peer_view(kept@[a]) == old_view[i as int]);
                    }
                }
            }
            i = i + 1;
        }
        proof {
            lemma_fresh_peers_distinct(old_view, now_ms, timeout_secs, n as int);
        }
        self.peers = kept;
    }

    /// The address to dial the peer `node_id` at, if it is registered.
    pub fn addr_of(&self, node_id: &str) -> (r: Option<(String, u16)>)
        ensures
            match peer_index(self.peers_of(), node_id@, 0) {
                Some(k) => r matches Some(a) && a.0@ == self.peers_of()[k].host && a.1 == self.peers_of()[k].port,
                None => r is None,
            },
    {
        let ghost v = peers_view(self.peers@);
        let id = crate::text::chars_of(node_id);
        let mut j: usize = 0;
        while j < self.peers.len()
            invariant
                j <= self.peers.len(),
                v == peers_view(self.peers@),
                id@ == node_id@,
                peer_index(v, node_id@, 0) == peer_index(v, node_id@, j as int),
            decreases self.peers.len() - j,
        {
            assert(v[j as int] == peer_view(self.peers@[j as int]));
            if chars_eq(&crate::text::chars_of(self.peers[j].announcement.node_id.as_str()), &id) {
                return Some((self.peers[j].tcp_host.clone(), self.peers[j].tcp_port));
            }
            j = j + 1;
        }
        None
    }

    /// The registered peers.
    pub fn peers(&self) -> (r: &Vec<P2pPeer>)
        ensures
            peers_view(r@) == self.peers_of(),
    {
        &self.peers
    }

    /// Each registered node and its announcement.
    pub fn known_nodes(&self) -> (r: Vec<(String, NodeAnnouncement)>)
        ensures
            r@.len() == self.peers_of().len(),
            forall|k: int|
                0 <= k < r@.len() ==> (#[trigger] r@[k]).0@ == self.peers_of()[k].announcement.node_id
                    && announcement_view(r@[k].1) == self.peers_of()[k].announcement,
    {
        let ghost v = peers_view(self.peers@);
        let mut out: Vec<(String, NodeAnnouncement)> = Vec::new();
        let mut i: usize = 0;
        while i < self.peers.len()
            invariant
                i <= self.peers.len(),
                v == peers_view(self.peers@),
                out@.len() == i,
                forall|k: int|
                    0 <= k < i ==> (#[trigger] out@[k]).0@ == v[k].announcement.node_id && announcement_view(
                        out@[k].1,
                    ) == v[k].announcement,
            decreases self.peers.len() - i,
        {
            assert(v[i as int] == peer_view(self.peers@[i as int]));
            out.push(
                (
                    self.peers[i].announcement.node_id.clone(),
                    copy_announcement(&self.peers[i].announcement),
                ),
            );
            i = i + 1;
        }
        out
    }
}

proof fn lemma_fresh_peers_distinct(peers: Seq<PeerView>, now: u64, t: u64, n: int)
    requires
        0 <= n <= peers.len(),
        distinct_ids(peers),
    ensures
        distinct_ids(fresh_peers(peers, now, t, n)),
        forall|a: int|
            0 <= a < fresh_peers(peers, now, t, n).len() ==> exists|q: int|
                0 <= q < n && #[trigger] fresh_peers(peers, now, t, n)[a] == peers[q],
    decreases n,
{
    if n > 0 {
        lemma_fresh_peers_distinct(peers, now, t, n - 1);
        let prev = fresh_peers(peers, now, t, n - 1);
        if peer_fresh(now, peers[n - 1].last_seen_ms, t) {
            let cur = prev.push(peers[n - 1]);
            assert forall|a: int| 0 <= a < cur.len() implies exists|q: int| 0 <= q < n && #[trigger] cur[a] == peers[q] by {
                if a < prev.len() {
                    assert(cur[a] == prev[a]);
                } else {
                    assert(cur[a] == peers[n - 1]);
                }
            }
            assert forall|a: int, b: int| 0 <= a < b < cur.len() implies (#[trigger] cur[a]).announcement.node_id
                != (#[trigger] cur[b]).announcement.node_id by {
                if b == prev.len() {
                    let q = choose|q: int| 0 <= q < n - 1 && #[trigger] prev[a] == peers[q];
                    assert(cur[a] == peers[q]);
                } else {
                    assert(cur[a] == prev[a]);
                    assert(cur[b] == prev[b]);
                }
            }
        } else {
            assert forall|a: int| 0 <= a < prev.len() implies exists|q: int| 0 <= q < n && #[trigger] prev[a] == peers[q] by {
                let q = choose|q: int| 0 <= q < n - 1 && #[trigger] prev[a] == peers[q];
            }
        }
    }
}

/// What a registry gives back of a write: once a peer is registered, a
/// lookup of its node id finds exactly what was registered, the other
/// peers are still found as they were, and no node id occurs twice.
pub proof fn lemma_registered_peer_is_found(peers: Seq<PeerView>, p: PeerView, other: Seq<char>)
    requires
        distinct_ids(peers),
        other != p.announcement.node_id,
    ensures
        ({
            let r = registered(peers, p);
            &&& distinct_ids(r)
            &&& peer_index(r, p.announcement.node_id, 0) matches Some(k) && r[k] == p
            &&& match peer_index(peers, other, 0) {
                Some(k) => peer_index(r, other, 0) == Some(k) && r[k] == peers[k],
                None => peer_index(r, other, 0) is None,
            }
        }),
{
    let id = p.announcement.node_id;
    let r = registered(peers, p);
    lemma_peer_index(peers, id, 0);
    lemma_peer_index(peers, other, 0);
    lemma_peer_index(r, id, 0);
    lemma_peer_index(r, other, 0);
    match peer_index(peers, id, 0) {
        Some(j) => {
            assert forall|a: int, b: int| 0 <= a < b < r.len() implies (#[trigger] r[a]).announcement.node_id
                != (#[trigger] r[b]).announcement.node_id by {
                if a == j {
                    assert(peers[a].announcement.node_id == id);
                } else if b == j {
                    assert(peers[b].announcement.node_id == id);
                }
            }
            lemma_index_unique(r, id, j);
            match peer_index(peers, other, 0) {
                Some(k) => {
                    assert(k != j);
                    lemma_index_unique(r, other, k);
                },
                None => {
                    assert forall|q: int| 0 <= q < r.len() implies (#[trigger] r[q]).announcement.node_id != other by {
                        if q != j {
                            assert(r[q] == peers[q]);
                        }
                    }
                    lemma_index_absent(r, other);
                },
            }
        },
        None => {
            lemma_index_unique(r, id, peers.len() as int);
            match peer_index(peers, other, 0) {
                Some(k) => {
                    lemma_index_unique(r, other, k);
                },
                None => {
                    lemma_index_absent(r, other);
                },
            }
        },
    }
}

proof fn lemma_index_unique(peers: Seq<PeerView>, id: Seq<char>, k: int)
    requires
        0 <= k < peers.len(),
        peers[k].announcement.node_id == id,
        distinct_ids(peers),
    ensures
        peer_index(peers, id, 0) == Some(k),
{
    lemma_index_from(peers, id, k, 0);
}

proof fn lemma_index_from(peers: Seq<PeerView>, id: Seq<char>, k: int, j: int)
    requires
        0 <= j <= k < peers.len(),
        peers[k].announcement.node_id == id,
        distinct_ids(peers),
    ensures
        peer_index(peers, id, j) == Some(k),
    decreases k - j,
{
    if j < k {
        assert(peers[j].announcement.node_id != peers[k].announcement.node_id);
        lemma_index_from(peers, id, k, j + 1);
    }
}

proof fn lemma_index_absent(peers: Seq<PeerView>, id: Seq<char>)
    requires
        forall|q: int| 0 <= q < peers.len() ==> (#[trigger] peers[q]).announcement.node_id != id,
    ensures
        peer_index(peers, id, 0) is None,
{
    lemma_absent_from(peers, id, 0);
}

proof fn lemma_absent_from(peers: Seq<PeerView>, id: Seq<char>, j: int)
    requires
        0 <= j,
        forall|q: int| 0 <= q < peers.len() ==> (#[trigger] peers[q]).announcement.node_id != id,
    ensures
        peer_index(peers, id, j) is None,
    decreases peers.len() - j,
{
    if j < peers.len() {
        lemma_absent_from(peers, id, j + 1);
    }
}

impl P2pAnnounce {
    /// The datagram announcing this node: its announcement and the address
    /// its tool-call server is bound to.
    pub fn presence(config: &crate::spine::P2pConfig, announcement: NodeAnnouncement) -> (a: Self)
        ensures
            a.announcement == announcement,
            a.tcp_host == config.bind_host,
            a.tcp_port == config.tcp_port,
    {
        P2pAnnounce { announcement, tcp_host: config.bind_host.clone(), tcp_port: config.tcp_port }
    }
}

impl ToolCallRequest {
    /// A call of `tool_name` with `args` under a fresh random call id (a
    /// hyphenated UUID).
    pub fn new_call(tool_name: String, args: JsonValue) -> (r: Self)
        ensures
            r.tool_name == tool_name,
            r.args == args,
            r.call_id@.len() == 36,
    {
        ToolCallRequest { call_id: crate::spine::random_uuid_text(), tool_name, args }
    }
}

/// The answer a listener gives a tool call it does not handle itself: a
/// failed result for that call naming the tool.
pub fn unrouted_call_result(request: &ToolCallRequest) -> (r: crate::spine::ToolCallResult)
    ensures
        r.call_id == request.call_id,
        !r.ok,
        r.output is None,
        r.error matches Some(e) && e@ == "Tool '"@ + request.tool_name@
            + "' is not directly handled by this P2P listener; route through the agent loop"@,
{
    let mut e = crate::text::chars_of("Tool '");
    crate::text::extend_str(&mut e, request.tool_name.as_str());
    crate::text::extend_str(&mut e, "' is not directly handled by this P2P listener; route through the agent loop");
    crate::spine::ToolCallResult {
        call_id: request.call_id.clone(),
        ok: false,
        output: None,
        error: Some(crate::text::string_of(&e)),
    }
}

/// The tool result a node's call result stands for: its output (empty when
/// none) on success, else its error (`missing_error` when it has none).
pub fn tool_result_of(result: crate::spine::ToolCallResult, missing_error: &str) -> (r: crate::tools::ToolResult)
    ensures
        r.success == result.ok,
        result.ok ==> r.output@ == match result.output {
            Some(o) => o@,
            None => Seq::<char>::empty(),
        } && r.error is None,
        !result.ok ==> r.error is Some && r.error->0@ == match result.error {
            Some(e) => e@,
            None => missing_error@,
        },
{
    if result.ok {
        crate::tools::ToolResult::ok(
            match result.output {
                Some(o) => o,
                None => String::new(),
            },
        )
    } else {
        crate::tools::ToolResult::err(
            match result.error {
                Some(e) => e,
                None => missing_error.to_string(),
            },
        )
    }
}

/// What an incoming spine message is, by its topic.
#[derive(Debug, Clone, Copy, PartialEq, Eq, Structural)]
pub enum IncomingKind {
    /// A node announcing itself (the topic contains `/announce`).
    Announcement,
    /// A tool call result (the topic contains `/result/`).
    CallResult,
    /// Anything else, which is ignored.
    Other,
}

/// The kind of a message published on `topic`.
pub fn incoming_kind(topic: &str) -> (k: IncomingKind)
    ensures
        k == if crate::text::contains(topic@, "/announce"@) {
            IncomingKind::Announcement
        } else if crate::text::contains(topic@, "/result/"@) {
            IncomingKind::CallResult
        } else {
            IncomingKind::Other
        },
{
    let t = crate::text::chars_of(topic);
    if crate::text::contains_chars(&t, &crate::text::chars_of("/announce")) {
        IncomingKind::Announcement
    } else if crate::text::contains_chars(&t, &crate::text::chars_of("/result/")) {
        IncomingKind::CallResult
    } else {
        IncomingKind::Other
    }
}

/// The nodes known on the spine: the latest announcement of each node id.
#[derive(Debug)]
pub struct NodeDirectory {
    nodes: Vec<NodeAnnouncement>,
}

/// The position of the node `id` among `nodes[j..]`.
pub open spec fn node_index(nodes: Seq<AnnouncementView>, id: Seq<char>, j: int) -> Option<int>
    decreases nodes.len() - j,
{
    if j < 0 || j >= nodes.len() {
        None
    } else if nodes[j].node_id == id {
        Some(j)
    } else {
        node_index(nodes, id, j + 1)
    }
}

/// The contents of a list of announcements.
pub open spec fn announcements_view(s: Seq<NodeAnnouncement>) -> Seq<AnnouncementView> {
    s.map_values(|a: NodeAnnouncement| announcement_view(a))
}

/// The directory after an announcement: the node's entry replaced, or the
/// announcement added at the end.
pub open spec fn announced(nodes: Seq<AnnouncementView>, a: AnnouncementView) -> Seq<AnnouncementView> {
    match node_index(nodes, a.node_id, 0) {
        Some(k) => nodes.update(k, a),
        None => nodes.push(a),
    }
}

proof fn lemma_node_index(nodes: Seq<AnnouncementView>, id: Seq<char>, j: int)
    requires
        0 <= j,
    ensures
        node_index(nodes, id, j) matches Some(k) ==> j <= k < nodes.len() && nodes[k].node_id == id,
        node_index(nodes, id, j) is None ==> forall|q: int|
            j <= q < nodes.len() ==> (#[trigger] nodes[q]).node_id != id,
    decreases nodes.len() - j,
{
    if j < nodes.len() && nodes[j].node_id != id {
        lemma_node_index(nodes, id, j + 1);
    }
}

impl NodeDirectory {
    #[verifier::type_invariant]
    spec fn ids_distinct(self) -> bool {
        forall|a: int, b: int|
            0 <= a < b < self.nodes@.len() ==> (#[trigger] self.nodes@[a]).node_id@
                != (#[trigger] self.nodes@[b]).node_id@
    }

    /// The known nodes, in the order they first announced themselves.
    pub closed spec fn nodes_of(&self) -> Seq<AnnouncementView> {
        announcements_view(self.nodes@)
    }

    /// An empty directory.
    pub fn new() -> (d: Self)
        ensures
            d.nodes_of().len() == 0,
    {
        let d = NodeDirectory { nodes: Vec::new() };
        assert(announcements_view(d.nodes@) =~= Seq::<AnnouncementView>::empty());
        d
    }

    /// Records a node's announcement.
    pub fn register(&mut self, announcement: NodeAnnouncement)
        ensures
            final(self).nodes_of() == announced(old(self).nodes_of(), announcement_view(announcement)),
    {
        proof {
            use_type_invariant(&*self);
        }
        let ghost old_view = announcements_view(self.nodes@);
        let ghost av = announcement_view(announcement);
        let ghost id = announcement.node_id@;
        proof {
            lemma_node_index(old_view, id, 0);
        }
        let key = crate::text::chars_of(announcement.node_id.as_str());
        let mut j: usize = 0;
        let mut found = false;
        while !found && j < self.nodes.len()
            invariant
                j <= self.nodes.len(),
                old_view == announcements_view(self.nodes@),
                key@ == id,
                found ==> j < self.nodes.len() && node_index(old_view, id, 0) == Some(j as int),
                !found ==> node_index(old_view, id, 0) == node_index(old_view, id, j as int),
            decreases self.nodes.len() - j + if found { 0int } else { 1int },
        {
            assert(old_view[j as int] == announcement_view(self.nodes@[j as int]));
            if chars_eq(&crate::text::chars_of(self.nodes[j].node_id.as_str()), &key) {
                found = true;
            } else {
                j = j + 1;
            }
        }
        let mut nodes: Vec<NodeAnnouncement> = Vec::new();
        std::mem::swap(&mut nodes, &mut self.nodes);
        let ghost before = nodes@;
        if found {
            nodes.set(j, announcement);
            assert(announcements_view(nodes@) =~= old_view.update(j as int, av));
            assert forall|a: int, b: int| 0 <= a < b < nodes@.len() implies (#[trigger] nodes@[a]).node_id@
                != (#[trigger] nodes@[b]).node_id@ by {
                if a == j {
                    assert(old_view[a].node_id == id);
                    assert(old_view[b] == announcement_view(before[b]));
                } else if b == j {
                    assert(old_view[b].node_id == id);
                    assert(old_view[a] == announcement_view(before[a]));
                } else {
                    assert(nodes@[a] == before[a]);
                    assert(nodes@[b] == before[b]);
                }
            }
        } else {
            nodes.push(announcement);
            assert(announcements_view(nodes@) =~= old_view.push(av));
            assert forall|a: int, b: int| 0 <= a < b < nodes@.len() implies (#[trigger] nodes@[a]).node_id@
                != (#[trigger] nodes@[b]).node_id@ by {
                if b == before.len() {
                    assert(old_view[a] == announcement_view(before[a]));
                } else {
                    assert(nodes@[a] == before[a]);
                    assert(nodes@[b] == before[b]);
                }
            }
        }
        self.nodes = nodes;
    }

    /// The announcement of the node `node_id`, if it is known.
    pub fn get(&self, node_id: &str) -> (r: Option<&NodeAnnouncement>)
        ensures
            match node_index(self.nodes_of(), node_id@, 0) {
                Some(k) => r matches Some(a) && announcement_view(*a) == self.nodes_of()[k],
                None => r is None,
            },
    {
        let ghost v = announcements_view(self.nodes@);
        let key = crate::text::chars_of(node_id);
        let mut j: usize = 0;
        while j < self.nodes.len()
            invariant
                j <= self.nodes.len(),
                v == announcements_view(self.nodes@),
                key@ == node_id@,
                node_index(v, node_id@, 0) == node_index(v, node_id@, j as int),
            decreases self.nodes.len() - j,
        {
            assert(v[j as int] == announcement_view(self.nodes@[j as int]));
            if chars_eq(&crate::text::chars_of(self.nodes[j].node_id.as_str()), &key) {
                return Some(&self.nodes[j]);
            }
            j = j + 1;
        }
        None
    }

    /// The known nodes' announcements.
    pub fn nodes(&self) -> (r: &Vec<NodeAnnouncement>)
        ensures
            announcements_view(r@) == self.nodes_of(),
    {
        &self.nodes
    }
}

} // verus!
