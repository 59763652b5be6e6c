//! The daemon's view of its own network topology: listen addresses,
//! transport-specific dial strings derived from them, the public API
//! address learned from identify, feature flags and gauges.

use crate::peers::{add_known_peer, known_peers_add_rel, unique_views};
use crate::strutil::{p2p_suffixed, seq_contains_sub, seq_starts_with, str_contains_sub, str_starts_with};
use vstd::prelude::*;
use vstd::string::*;

verus! {

/// The default advertised capacity, in tokens per second.
pub const DEFAULT_CAPACITY: u32 = 100;

/// The topology snapshot persisted to disk and served over the control
/// plane. The average latency gauge is carried in whole milliseconds.
#[derive(Debug)]
pub struct TopologyState {
    pub local_peer_id: String,
    pub listen_addrs: Vec<String>,
    pub webrtc_addr: Option<String>,
    pub quic_addr: Option<String>,
    pub ws_addr: Option<String>,
    pub public_api_addr: Option<String>,
    pub is_public: bool,
    pub relay_server_enabled: bool,
    pub contribute_enabled: bool,
    pub capacity: u32,
    pub load: u32,
    pub latency_ms: u32,
}

/// The dial string derived for a listen address: the address with the
/// local peer id appended after `/p2p/`.
pub open spec fn derived_addr(addr: Seq<char>, local: Seq<char>) -> Seq<char> {
    addr + "/p2p/"@ + local
}

/// How a newly announced listen address transforms the topology:
/// the address joins the listen list unless already present, and each
/// transport whose marker occurs in the address gets its derived dial
/// string; everything else is untouched.
pub open spec fn listen_addr_applied(pre: TopologyState, post: TopologyState, addr: Seq<char>) -> bool {
    &&& post.local_peer_id == pre.local_peer_id
    &&& known_peers_add_rel(pre.listen_addrs@, post.listen_addrs@, addr)
    &&& (if seq_contains_sub(addr, "/ws"@) {
        post.ws_addr matches Some(s) && s@ == derived_addr(addr, pre.local_peer_id@)
    } else {
        post.ws_addr == pre.ws_addr
    })
    &&& (if seq_contains_sub(addr, "/webrtc-direct/"@) {
        post.webrtc_addr matches Some(s) && s@ == derived_addr(addr, pre.local_peer_id@)
    } else {
        post.webrtc_addr == pre.webrtc_addr
    })
    &&& (if seq_contains_sub(addr, "/quic-v1"@) {
        post.quic_addr matches Some(s) && s@ == derived_addr(addr, pre.local_peer_id@)
    } else {
        post.quic_addr == pre.quic_addr
    })
    &&& post.public_api_addr == pre.public_api_addr
    &&& post.is_public == pre.is_public
    &&& post.relay_server_enabled == pre.relay_server_enabled
    &&& post.contribute_enabled == pre.contribute_enabled
    &&& post.capacity == pre.capacity
    &&& post.load == pre.load
    &&& post.latency_ms == pre.latency_ms
}

/// An observed address is loopback when it starts with the IPv4 or
/// IPv6 loopback prefix.
pub open spec fn is_loopback(addr: Seq<char>) -> bool {
    seq_starts_with(addr, "/ip4/127.0.0.1"@) || seq_starts_with(addr, "/ip6/::1"@)
}

/// How an identify report transforms the topology: a first non-loopback
/// observed address becomes the public API address; everything else is
/// untouched.
pub open spec fn identify_applied(pre: TopologyState, post: TopologyState, observed: Seq<char>) -> bool {
    &&& post.local_peer_id == pre.local_peer_id
    &&& post.listen_addrs == pre.listen_addrs
    &&& post.webrtc_addr == pre.webrtc_addr
    &&& post.quic_addr == pre.quic_addr
    &&& post.ws_addr == pre.ws_addr
    &&& (if pre.public_api_addr is None && !is_loopback(observed) {
        post.public_api_addr matches Some(s) && s@ == derived_addr(observed, pre.local_peer_id@)
    } else {
        post.public_api_addr == pre.public_api_addr
    })
    &&& post.is_public == pre.is_public
    &&& post.relay_server_enabled == pre.relay_server_enabled
    &&& post.contribute_enabled == pre.contribute_enabled
    &&& post.capacity == pre.capacity
    &&& post.load == pre.load
    &&& post.latency_ms == pre.latency_ms
}

impl TopologyState {
    /// The listen addresses stay free of repeats.
    pub open spec fn wf(self) -> bool {
        unique_views(self.listen_addrs@)
    }

    /// The topology as it stands at startup: no listen addresses yet,
    /// the operator's flags, and the default gauges.
    pub fn new(
        local_peer_id: String,
        public_api_addr: Option<String>,
        is_public: bool,
        relay_server_enabled: bool,
        contribute_enabled: bool,
    ) -> (r: TopologyState)
        ensures
            r.wf(),
            r.local_peer_id == local_peer_id,
            r.listen_addrs@.len() == 0,
            r.webrtc_addr is None,
            r.quic_addr is None,
            r.ws_addr is None,
            r.public_api_addr == public_api_addr,
            r.is_public == is_public,
            r.relay_server_enabled == relay_server_enabled,
            r.contribute_enabled == contribute_enabled,
            r.capacity == DEFAULT_CAPACITY,
            r.load == 0,
            r.latency_ms == 0,
    {
        TopologyState {
            local_peer_id,
            listen_addrs: Vec::new(),
            webrtc_addr: None,
            quic_addr: None,
            ws_addr: None,
            public_api_addr,
            is_public,
            relay_server_enabled,
            contribute_enabled,
            capacity: DEFAULT_CAPACITY,
            load: 0,
            latency_ms: 0,
        }
    }

    /// Records a newly announced listen address and refreshes the
    /// derived per-transport dial strings.
    pub fn apply_new_listen_addr(&mut self, addr: String)
        requires
            old(self).wf(),
        ensures
            final(self).wf(),
            listen_addr_applied(*old(self), *final(self), addr@),
    {
        if str_contains_sub(addr.as_str(), "/ws") {
            self.ws_addr = Some(p2p_suffixed(addr.as_str(), self.local_peer_id.as_str()));
        }
        if str_contains_sub(addr.as_str(), "/webrtc-direct/") {
            self.webrtc_addr = Some(p2p_suffixed(addr.as_str(), self.local_peer_id.as_str()));
        }
        if str_contains_sub(addr.as_str(), "/quic-v1") {
            self.quic_addr = Some(p2p_suffixed(addr.as_str(), self.local_peer_id.as_str()));
        }
        add_known_peer(&mut self.listen_addrs, addr);
    }

    /// Records the observed public address from an identify report,
    /// unless one is already known or the address is loopback.
    pub fn apply_identify_observed(&mut self, observed_addr: &str)
        requires
            old(self).wf(),
        ensures
            final(self).wf(),
            identify_applied(*old(self), *final(self), observed_addr@),
    {
        let keep = match &self.public_api_addr {
            Some(_) => true,
            None => false,
        };
        if !keep && !str_starts_with(observed_addr, "/ip4/127.0.0.1") && !str_starts_with(
            observed_addr,
            "/ip6/::1",
        ) {
            self.public_api_addr = Some(
                p2p_suffixed(observed_addr, self.local_peer_id.as_str()),
            );
        }
    }
}

} // verus!
