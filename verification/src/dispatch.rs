//! The dispatch loop's decision core. The daemon's event loop owns the
//! swarm handle and the mutable state; every decision it takes —
//! whether to admit a gossip result, what to do on a new connection,
//! which addresses to redial — is a function here from state and event
//! to new state and actions. The surrounding process performs the
//! actions (dials, replies, disk writes) and feeds the next event back.

use crate::messages::{BackwardPassGradient, TrainingGossipPacket, WorkRequest, WorkResponse};
use crate::peers::{
    add_known_peer, known_peers_add_rel, peers_insert_rel, peers_mark_verified_rel,
    peers_remove_rel, peers_touch_rel, unique_views, PeerTable,
};
use crate::reputation::{lazy_expiry_rel, ScoutPenaltyBook};
use crate::strutil::{seq_contains_sub, str_contains_sub, str_eq};
use crate::telemetry::{observed_rel, LatencyHistogram};
use crate::topology::{identify_applied, listen_addr_applied, TopologyState};
use std::collections::VecDeque;
use vstd::prelude::*;
use vstd::string::*;

verus! {

/// The result queue keeps at most this many entries, dropping the
/// oldest beyond it.
pub const RESULT_QUEUE_CAP: usize = 128;

/// The backward-gradient queue keeps at most this many entries.
pub const GRADIENT_QUEUE_CAP: usize = 128;

/// The mutable state the dispatch loop reconciles.
#[derive(Debug)]
pub struct DaemonState {
    pub topology: TopologyState,
    pub peers: PeerTable,
    pub known_peers: Vec<String>,
    pub results: VecDeque<WorkResponse>,
    pub backward_passes: VecDeque<BackwardPassGradient>,
    pub penalties: ScoutPenaltyBook,
    pub latency_hist: LatencyHistogram,
    pub pending_handshakes: Vec<u64>,
}

/// A swarm or protocol event, reduced to the values the decisions
/// depend on.
#[derive(Debug)]
pub enum SwarmEventIn {
    WorkResult { response: WorkResponse },
    TrainingPacket { packet: TrainingGossipPacket },
    InboundWorkRequest { request: WorkRequest },
    HandshakeRequest { peer_id: String, kind: String, sent_at_ms: u128 },
    HandshakeResponse { peer_id: String, kind: String, request_id: u64 },
    ConnectionEstablished { peer_id: String, remote_addr: String },
    ConnectionClosed { peer_id: String },
    NewListenAddr { addr: String },
    IdentifyReceived { observed_addr: String },
}

/// A command the loop asks the surrounding process to perform.
#[derive(Debug)]
pub enum DispatchAction {
    Disconnect { peer_id: String },
    PublishWork { request: WorkRequest },
    SendPong { sent_at_ms: u128 },
    RespondWorkAck { text: String },
    SendPing { peer_id: String, sent_at_ms: u128 },
    PersistKnownPeers,
    PersistTopology,
}

/// A bounded queue after one more entry: the oldest leaves once the
/// queue is full.
pub open spec fn enqueue_bounded<T>(q: Seq<T>, x: T, cap: int) -> Seq<T> {
    if q.len() >= cap {
        q.drop_first().push(x)
    } else {
        q.push(x)
    }
}

/// The propagation delay recorded for a result: the clock difference
/// clamped below at zero, truncated into the histogram's domain.
pub open spec fn propagation_ms(now: u128, created: u128) -> u64 {
    if created >= now {
        0
    } else {
        (now - created) as u64
    }
}

/// The known-peer addresses worth redialing: those whose string does
/// not carry the local peer id.
pub open spec fn dial_candidates(known: Seq<String>, local: Seq<char>) -> Seq<String>
    decreases known.len(),
{
    if known.len() == 0 {
        known
    } else {
        let prefix = dial_candidates(known.drop_last(), local);
        if seq_contains_sub(known.last()@, local) {
            prefix
        } else {
            prefix.push(known.last())
        }
    }
}

/// Removing the first occurrence of a pending handshake id.
pub open spec fn pending_remove_rel(pre: Seq<u64>, post: Seq<u64>, id: u64) -> bool {
    if exists|i: int| 0 <= i < pre.len() && pre[i] == id {
        exists|i: int|
            0 <= i < pre.len() && #[trigger] pre[i] == id && (forall|j: int|
                0 <= j < i ==> pre[j] != id) && post == pre.remove(i)
    } else {
        post == pre
    }
}

/// How an admitted or refused gossip result transforms the state:
/// the blackhole check comes first; only an admitted result touches
/// the histogram and the result queue.
pub open spec fn work_result_rel(
    pre: DaemonState,
    post: DaemonState,
    response: WorkResponse,
    now: u128,
) -> bool {
    let admitted = !pre.penalties.spec_blackholed(response.peer_id@, now);
    &&& lazy_expiry_rel(pre.penalties, post.penalties, response.peer_id@, now)
    &&& post.topology == pre.topology
    &&& post.peers == pre.peers
    &&& post.known_peers == pre.known_peers
    &&& post.backward_passes == pre.backward_passes
    &&& post.pending_handshakes == pre.pending_handshakes
    &&& (if admitted {
        &&& post.results@ == enqueue_bounded(pre.results@, response, RESULT_QUEUE_CAP as int)
        &&& (match response.created_at_ms {
            Some(created) => observed_rel(
                pre.latency_hist,
                post.latency_hist,
                propagation_ms(now, created),
            ),
            None => post.latency_hist == pre.latency_hist,
        })
    } else {
        &&& post.results@ == pre.results@
        &&& post.latency_hist == pre.latency_hist
    })
}

/// How a training packet transforms the state: a forward pass is noted
/// and dropped; a backward pass joins the bounded gradient queue.
pub open spec fn training_packet_rel(
    pre: DaemonState,
    post: DaemonState,
    packet: TrainingGossipPacket,
) -> bool {
    match packet {
        TrainingGossipPacket::ForwardPass(_) => post == pre,
        TrainingGossipPacket::BackwardPass(g) => {
            &&& post.backward_passes@ == enqueue_bounded(
                pre.backward_passes@,
                g,
                GRADIENT_QUEUE_CAP as int,
            )
            &&& post.topology == pre.topology
            &&& post.peers == pre.peers
            &&& post.known_peers == pre.known_peers
            &&& post.results == pre.results
            &&& post.penalties == pre.penalties
            &&& post.latency_hist == pre.latency_hist
            &&& post.pending_handshakes == pre.pending_handshakes
        },
    }
}

/// How an inbound handshake request transforms the state: a PING marks
/// the sender verified and is answered with a PONG stamped now; any
/// other kind is ignored.
pub open spec fn handshake_request_rel(
    pre: DaemonState,
    post: DaemonState,
    peer_id: Seq<char>,
    kind: Seq<char>,
    now: u128,
    acts: Seq<DispatchAction>,
) -> bool {
    if kind == "PING"@ {
        &&& peers_mark_verified_rel(pre.peers, post.peers, peer_id, now)
        &&& post.topology == pre.topology
        &&& post.known_peers == pre.known_peers
        &&& post.results == pre.results
        &&& post.backward_passes == pre.backward_passes
        &&& post.penalties == pre.penalties
        &&& post.latency_hist == pre.latency_hist
        &&& post.pending_handshakes == pre.pending_handshakes
        &&& acts.len() == 1
        &&& acts[0] == (DispatchAction::SendPong { sent_at_ms: now })
    } else {
        post == pre && acts.len() == 0
    }
}

/// How a handshake response transforms the state: the pending entry is
/// cleared, the peer's last-seen stamp moves, and a PONG marks it
/// verified.
pub open spec fn handshake_response_rel(
    pre: DaemonState,
    post: DaemonState,
    peer_id: Seq<char>,
    kind: Seq<char>,
    request_id: u64,
    now: u128,
) -> bool {
    &&& pending_remove_rel(pre.pending_handshakes@, post.pending_handshakes@, request_id)
    &&& (if kind == "PONG"@ {
        peers_mark_verified_rel(pre.peers, post.peers, peer_id, now)
    } else {
        peers_touch_rel(pre.peers, post.peers, peer_id, now)
    })
    &&& post.topology == pre.topology
    &&& post.known_peers == pre.known_peers
    &&& post.results == pre.results
    &&& post.backward_passes == pre.backward_passes
    &&& post.penalties == pre.penalties
    &&& post.latency_hist == pre.latency_hist
}

/// How a fresh connection transforms the state: a blackholed peer is
/// disconnected untouched; anyone else gets a peer record, their
/// address joins the known list, the list is persisted, and a PING
/// goes out.
pub open spec fn conn_established_rel(
    pre: DaemonState,
    post: DaemonState,
    peer_id: Seq<char>,
    remote_addr: Seq<char>,
    now: u128,
    acts: Seq<DispatchAction>,
) -> bool {
    let reject = pre.penalties.spec_blackholed(peer_id, now);
    &&& lazy_expiry_rel(pre.penalties, post.penalties, peer_id, now)
    &&& post.topology == pre.topology
    &&& post.results == pre.results
    &&& post.backward_passes == pre.backward_passes
    &&& post.latency_hist == pre.latency_hist
    &&& post.pending_handshakes == pre.pending_handshakes
    &&& (if reject {
        &&& post.peers == pre.peers
        &&& post.known_peers == pre.known_peers
        &&& acts.len() == 1
        &&& (acts[0] matches DispatchAction::Disconnect { peer_id: p } && p@ == peer_id)
    } else {
        &&& peers_insert_rel(pre.peers, post.peers, peer_id, remote_addr, now)
        &&& known_peers_add_rel(pre.known_peers@, post.known_peers@, remote_addr)
        &&& acts.len() == 2
        &&& acts[0] == DispatchAction::PersistKnownPeers
        &&& (acts[1] matches DispatchAction::SendPing { peer_id: p, sent_at_ms: t } && p@
            == peer_id && t == now)
    })
}

/// How a closed connection transforms the state: only the peer's
/// record leaves; its address stays known for future redials.
pub open spec fn conn_closed_rel(pre: DaemonState, post: DaemonState, peer_id: Seq<char>) -> bool {
    &&& peers_remove_rel(pre.peers, post.peers, peer_id)
    &&& post.topology == pre.topology
    &&& post.known_peers == pre.known_peers
    &&& post.results == pre.results
    &&& post.backward_passes == pre.backward_passes
    &&& post.penalties == pre.penalties
    &&& post.latency_hist == pre.latency_hist
    &&& post.pending_handshakes == pre.pending_handshakes
}

/// How a new listen address transforms the state: the topology absorbs
/// it and is persisted.
pub open spec fn listen_addr_rel(
    pre: DaemonState,
    post: DaemonState,
    addr: Seq<char>,
    acts: Seq<DispatchAction>,
) -> bool {
    &&& listen_addr_applied(pre.topology, post.topology, addr)
    &&& post.peers == pre.peers
    &&& post.known_peers == pre.known_peers
    &&& post.results == pre.results
    &&& post.backward_passes == pre.backward_passes
    &&& post.penalties == pre.penalties
    &&& post.latency_hist == pre.latency_hist
    &&& post.pending_handshakes == pre.pending_handshakes
    &&& acts.len() == 1
    &&& acts[0] == DispatchAction::PersistTopology
}

/// How an identify report transforms the state: only the topology's
/// public address may change.
pub open spec fn identify_rel(pre: DaemonState, post: DaemonState, observed: Seq<char>) -> bool {
    &&& identify_applied(pre.topology, post.topology, observed)
    &&& post.peers == pre.peers
    &&& post.known_peers == pre.known_peers
    &&& post.results == pre.results
    &&& post.backward_passes == pre.backward_passes
    &&& post.penalties == pre.penalties
    &&& post.latency_hist == pre.latency_hist
    &&& post.pending_handshakes == pre.pending_handshakes
}

/// The position of the first pending handshake with this id.
fn find_pending(pending: &Vec<u64>, request_id: u64) -> (r: Option<usize>)
    ensures
        match r {
            Some(i) => 0 <= i < pending@.len() && pending@[i as int] == request_id && (forall|
                j: int,
            |
                0 <= j < i ==> pending@[j] != request_id),
            None => forall|j: int| 0 <= j < pending@.len() ==> pending@[j] != request_id,
        },
{
    let mut i: usize = 0;
    while i < pending.len()
        invariant
            0 <= i <= pending@.len(),
            forall|j: int| 0 <= j < i ==> pending@[j] != request_id,
        decreases pending@.len() - i,
    {
        if pending[i] == request_id {
            return Some(i);
        }
        i += 1;
    }
    None
}

/// A work submission ready for publication: stamped with the current
/// instant when the caller left the stamp out.
pub fn prepare_work_publish(request: WorkRequest, now: u128) -> (r: WorkRequest)
    ensures
        r.request_id == request.request_id,
        r.prompt_context == request.prompt_context,
        r.min_tokens == request.min_tokens,
        r.created_at_ms == (if request.created_at_ms is None {
            Some(now)
        } else {
            request.created_at_ms
        }),
{
    let mut r = request;
    if r.created_at_ms.is_none() {
        r.created_at_ms = Some(now);
    }
    r
}

/// The known addresses to redial on a reconnect tick: every one that
/// does not carry the local peer id.
pub fn reconnect_dials(known: &Vec<String>, local_peer_id: &str) -> (r: Vec<String>)
    ensures
        r@ == dial_candidates(known@, local_peer_id@),
{
    let mut out: Vec<String> = Vec::new();
    let mut i: usize = 0;
    while i < known.len()
        invariant
            0 <= i <= known@.len(),
            out@ == dial_candidates(known@.subrange(0, i as int), local_peer_id@),
        decreases known@.len() - i,
    {
        proof {
            assert(known@.subrange(0, i + 1).drop_last() =~= known@.subrange(0, i as int));
            assert(known@.subrange(0, i + 1).last() == known@[i as int]);
        }
        if !str_contains_sub(known[i].as_str(), local_peer_id) {
            out.push(known[i].clone());
        }
        i += 1;
    }
    proof {
        assert(known@.subrange(0, known@.len() as int) =~= known@);
    }
    out
}

impl DaemonState {
    /// Every component is well formed and both queues are within their
    /// bounds.
    pub open spec fn wf(self) -> bool {
        &&& self.topology.wf()
        &&& self.peers.wf()
        &&& unique_views(self.known_peers@)
        &&& self.results@.len() <= RESULT_QUEUE_CAP
        &&& self.backward_passes@.len() <= GRADIENT_QUEUE_CAP
        &&& self.penalties.wf()
        &&& self.latency_hist.wf()
    }

    /// The state at startup: the given topology, the bootstrap
    /// addresses as known peers, and everything else empty.
    pub fn new(topology: TopologyState, bootstrap: Vec<String>) -> (r: DaemonState)
        requires
            topology.wf(),
            unique_views(bootstrap@),
        ensures
            r.wf(),
            r.topology == topology,
            r.known_peers == bootstrap,
            r.peers.records@.len() == 0,
            r.results@.len() == 0,
            r.backward_passes@.len() == 0,
            r.penalties.entries@.len() == 0,
            r.latency_hist.total == 0,
            r.pending_handshakes@.len() == 0,
    {
        DaemonState {
            topology,
            peers: PeerTable::new(),
            known_peers: bootstrap,
            results: VecDeque::new(),
            backward_passes: VecDeque::new(),
            penalties: ScoutPenaltyBook::new(),
            latency_hist: LatencyHistogram::new(),
            pending_handshakes: Vec::new(),
        }
    }

    /// Admits or drops one gossip work result. The blackhole check
    /// comes before any queue mutation: a result from a blackholed
    /// scout leaves the queues and the histogram untouched.
    pub fn handle_work_result(&mut self, response: WorkResponse, now: u128) -> (admitted: bool)
        requires
            old(self).wf(),
        ensures
            final(self).wf(),
            admitted == !old(self).penalties.spec_blackholed(response.peer_id@, now),
            work_result_rel(*old(self), *final(self), response, now),
    {
        let blackholed = self.penalties.is_blackholed(response.peer_id.as_str(), now);
        if blackholed {
            return false;
        }
        match response.created_at_ms {
            Some(created) => {
                let diff = if now >= created {
                    now - created
                } else {
                    0
                };
                let prop: u64 = #[verifier::truncate] (diff as u64);
                self.latency_hist.observe(prop);
            },
            None => {},
        }
        let ghost q_pre = self.results@;
        self.results.push_back(response);
        if self.results.len() > RESULT_QUEUE_CAP {
            self.results.pop_front();
            proof {
                assert(self.results@ =~= q_pre.drop_first().push(response));
            }
        }
        true
    }

    /// Notes a training packet: forward passes are logged by the
    /// caller and dropped; backward passes queue up for future routing.
    pub fn handle_training_packet(&mut self, packet: TrainingGossipPacket)
        requires
            old(self).wf(),
        ensures
            final(self).wf(),
            training_packet_rel(*old(self), *final(self), packet),
    {
        match packet {
            TrainingGossipPacket::ForwardPass(_) => {},
            TrainingGossipPacket::BackwardPass(gradient) => {
                let ghost q_pre = self.backward_passes@;
                let ghost g = gradient;
                self.backward_passes.push_back(gradient);
                if self.backward_passes.len() > GRADIENT_QUEUE_CAP {
                    self.backward_passes.pop_front();
                    proof {
                        assert(self.backward_passes@ =~= q_pre.drop_first().push(g));
                    }
                }
            },
        }
    }

    /// Handles an inbound PING: the sender is now verified and gets a
    /// PONG stamped with the current instant.
    pub fn handle_handshake_request(&mut self, peer_id: &str, kind: &str, now: u128) -> (acts: Vec<
        DispatchAction,
    >)
        requires
            old(self).wf(),
        ensures
            final(self).wf(),
            handshake_request_rel(*old(self), *final(self), peer_id@, kind@, now, acts@),
    {
        let mut acts: Vec<DispatchAction> = Vec::new();
        if str_eq(kind, "PING") {
            self.peers.mark_verified(peer_id, now);
            acts.push(DispatchAction::SendPong { sent_at_ms: now });
        }
        acts
    }

    /// Handles a handshake response: the pending entry is cleared, the
    /// sender's last-seen stamp moves, and a PONG marks it verified.
    pub fn handle_handshake_response(&mut self, peer_id: &str, kind: &str, request_id: u64, now: u128)
        requires
            old(self).wf(),
        ensures
            final(self).wf(),
            handshake_response_rel(
                *old(self),
                *final(self),
                peer_id@,
                kind@,
                request_id,
                now,
            ),
    {
        match find_pending(&self.pending_handshakes, request_id) {
            Some(i) => {
                self.pending_handshakes.remove(i);
            },
            None => {},
        }
        if str_eq(kind, "PONG") {
            self.peers.mark_verified(peer_id, now);
        } else {
            self.peers.touch(peer_id, now);
        }
    }

    /// Records that an outbound PING with this request id is in
    /// flight.
    pub fn note_ping_sent(&mut self, request_id: u64)
        requires
            old(self).wf(),
        ensures
            final(self).wf(),
            final(self).pending_handshakes@ == old(self).pending_handshakes@.push(request_id),
            final(self).topology == old(self).topology,
            final(self).peers == old(self).peers,
            final(self).known_peers == old(self).known_peers,
            final(self).results == old(self).results,
            final(self).backward_passes == old(self).backward_passes,
            final(self).penalties == old(self).penalties,
            final(self).latency_hist == old(self).latency_hist,
    {
        self.pending_handshakes.push(request_id);
    }

    /// Admits or refuses a freshly established connection. A
    /// blackholed peer is disconnected before any bookkeeping; anyone
    /// else gets a record, their address joins the known-peers list,
    /// persistence is requested, and a PING goes out.
    pub fn handle_connection_established(
        &mut self,
        peer_id: String,
        remote_addr: String,
        now: u128,
    ) -> (acts: Vec<DispatchAction>)
        requires
            old(self).wf(),
        ensures
            final(self).wf(),
            conn_established_rel(
                *old(self),
                *final(self),
                peer_id@,
                remote_addr@,
                now,
                acts@,
            ),
    {
        let reject = self.penalties.is_blackholed(peer_id.as_str(), now);
        let mut acts: Vec<DispatchAction> = Vec::new();
        if reject {
            acts.push(DispatchAction::Disconnect { peer_id });
            return acts;
        }
        self.peers.insert_connected(peer_id.clone(), remote_addr.clone(), now);
        add_known_peer(&mut self.known_peers, remote_addr);
        acts.push(DispatchAction::PersistKnownPeers);
        acts.push(DispatchAction::SendPing { peer_id, sent_at_ms: now });
        acts
    }

    /// Forgets a peer whose connection closed; its address stays in
    /// the known-peers list for future redials.
    pub fn handle_connection_closed(&mut self, peer_id: &str)
        requires
            old(self).wf(),
        ensures
            final(self).wf(),
            conn_closed_rel(*old(self), *final(self), peer_id@),
    {
        self.peers.remove(peer_id);
    }

    /// Absorbs a newly announced listen address and asks for the
    /// topology snapshot to be persisted.
    pub fn handle_new_listen_addr(&mut self, addr: String) -> (acts: Vec<DispatchAction>)
        requires
            old(self).wf(),
        ensures
            final(self).wf(),
            listen_addr_rel(*old(self), *final(self), addr@, acts@),
    {
        self.topology.apply_new_listen_addr(addr);
        let mut acts: Vec<DispatchAction> = Vec::new();
        acts.push(DispatchAction::PersistTopology);
        acts
    }

    /// Absorbs an identify report's observed address.
    pub fn handle_identify_received(&mut self, observed_addr: &str)
        requires
            old(self).wf(),
        ensures
            final(self).wf(),
            identify_rel(*old(self), *final(self), observed_addr@),
    {
        self.topology.apply_identify_observed(observed_addr);
    }

    /// Hands out the oldest queued result, if any, as the poll
    /// endpoint does.
    pub fn pop_result(&mut self) -> (r: Option<WorkResponse>)
        requires
            old(self).wf(),
        ensures
            final(self).wf(),
            match r {
                Some(response) => old(self).results@.len() > 0 && response == old(
                    self,
                ).results@[0] && final(self).results@ == old(self).results@.drop_first(),
                None => old(self).results@.len() == 0 && final(self).results@ == old(
                    self,
                ).results@,
            },
            final(self).topology == old(self).topology,
            final(self).peers == old(self).peers,
            final(self).known_peers == old(self).known_peers,
            final(self).backward_passes == old(self).backward_passes,
            final(self).penalties == old(self).penalties,
            final(self).latency_hist == old(self).latency_hist,
            final(self).pending_handshakes == old(self).pending_handshakes,
    {
        let r = self.results.pop_front();
        proof {
            if old(self).results@.len() > 0 {
                assert(self.results@ =~= old(self).results@.drop_first());
            }
        }
        r
    }

    /// Reconciles one swarm event: dispatches to the handler for its
    /// kind and hands back the actions the process must perform.
    pub fn handle_swarm_event(&mut self, event: SwarmEventIn, now: u128) -> (acts: Vec<
        DispatchAction,
    >)
        requires
            old(self).wf(),
        ensures
            final(self).wf(),
            match event {
                SwarmEventIn::WorkResult { response } => work_result_rel(
                    *old(self),
                    *final(self),
                    response,
                    now,
                ) && acts@.len() == 0,
                SwarmEventIn::TrainingPacket { packet } => training_packet_rel(
                    *old(self),
                    *final(self),
                    packet,
                ) && acts@.len() == 0,
                SwarmEventIn::InboundWorkRequest { request } => *final(self) == *old(self)
                    && acts@.len() == 2 && (acts@[0] matches DispatchAction::PublishWork {
                    request: rq,
                } && rq == request) && (acts@[1] matches DispatchAction::RespondWorkAck { text: t }
                    && t@ == "published shard-work"@),
                SwarmEventIn::HandshakeRequest { peer_id, kind, sent_at_ms: _ } => {
                    handshake_request_rel(
                        *old(self),
                        *final(self),
                        peer_id@,
                        kind@,
                        now,
                        acts@,
                    )
                },
                SwarmEventIn::HandshakeResponse { peer_id, kind, request_id } => {
                    handshake_response_rel(
                        *old(self),
                        *final(self),
                        peer_id@,
                        kind@,
                        request_id,
                        now,
                    ) && acts@.len() == 0
                },
                SwarmEventIn::ConnectionEstablished { peer_id, remote_addr } => {
                    conn_established_rel(
                        *old(self),
                        *final(self),
                        peer_id@,
                        remote_addr@,
                        now,
                        acts@,
                    )
                },
                SwarmEventIn::ConnectionClosed { peer_id } => conn_closed_rel(
                    *old(self),
                    *final(self),
                    peer_id@,
                ) && acts@.len() == 0,
                SwarmEventIn::NewListenAddr { addr } => listen_addr_rel(
                    *old(self),
                    *final(self),
                    addr@,
                    acts@,
                ),
                SwarmEventIn::IdentifyReceived { observed_addr } => identify_rel(
                    *old(self),
                    *final(self),
                    observed_addr@,
                ) && acts@.len() == 0,
            },
    {
        match event {
            SwarmEventIn::WorkResult { response } => {
                self.handle_work_result(response, now);
                Vec::new()
            },
            SwarmEventIn::TrainingPacket { packet } => {
                self.handle_training_packet(packet);
                Vec::new()
            },
            SwarmEventIn::InboundWorkRequest { request } => {
                let mut acts: Vec<DispatchAction> = Vec::new();
                acts.push(DispatchAction::PublishWork { request });
                acts.push(
                    DispatchAction::RespondWorkAck {
                        text: String::from_str("published shard-work"),
                    },
                );
                acts
            },
            SwarmEventIn::HandshakeRequest { peer_id, kind, sent_at_ms: _ } => {
                self.handle_handshake_request(peer_id.as_str(), kind.as_str(), now)
            },
            SwarmEventIn::HandshakeResponse { peer_id, kind, request_id } => {
                self.handle_handshake_response(peer_id.as_str(), kind.as_str(), request_id, now);
                Vec::new()
            },
            SwarmEventIn::ConnectionEstablished { peer_id, remote_addr } => {
                self.handle_connection_established(peer_id, remote_addr, now)
            },
            SwarmEventIn::ConnectionClosed { peer_id } => {
                self.handle_connection_closed(peer_id.as_str());
                Vec::new()
            },
            SwarmEventIn::NewListenAddr { addr } => self.handle_new_listen_addr(addr),
            SwarmEventIn::IdentifyReceived { observed_addr } => {
                self.handle_identify_received(observed_addr.as_str());
                Vec::new()
            },
        }
    }
}

} // verus!
