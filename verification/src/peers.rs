//! Peer bookkeeping: the known-peers address list with its
//! first-occurrence deduplication, and the table of currently
//! connected peers.

use crate::strutil::str_eq;
use vstd::prelude::*;
use vstd::string::*;

verus! {

/// Some element of `s` has the characters `x`.
pub open spec fn has_view(s: Seq<String>, x: Seq<char>) -> bool {
    exists|j: int| 0 <= j < s.len() && #[trigger] s[j]@ == x
}

/// No two elements of `s` hold the same characters.
pub open spec fn unique_views(s: Seq<String>) -> bool {
    forall|i: int, j: int| #![trigger s[i]@, s[j]@] 0 <= i < j < s.len() ==> s[i]@ != s[j]@
}

/// `s` with every repeated address removed, keeping the first
/// occurrence of each.
pub open spec fn dedup_first(s: Seq<String>) -> Seq<String>
    decreases s.len(),
{
    if s.len() == 0 {
        s
    } else if has_view(s.drop_last(), s.last()@) {
        dedup_first(s.drop_last())
    } else {
        dedup_first(s.drop_last()).push(s.last())
    }
}

/// `sub` can be read off `s` in order, skipping elements.
pub open spec fn is_subsequence(sub: Seq<String>, s: Seq<String>) -> bool
    decreases s.len(),
{
    if sub.len() == 0 {
        true
    } else if s.len() == 0 {
        false
    } else if sub.last() == s.last() {
        is_subsequence(sub.drop_last(), s.drop_last())
    } else {
        is_subsequence(sub, s.drop_last())
    }
}

/// True when some element of `v` holds the characters of `x`.
pub fn contains_addr(v: &Vec<String>, x: &str) -> (r: bool)
    ensures
        r == has_view(v@, x@),
{
    let mut j: usize = 0;
    while j < v.len()
        invariant
            0 <= j <= v@.len(),
            forall|k: int| 0 <= k < j ==> #[trigger] v@[k]@ != x@,
        decreases v@.len() - j,
    {
        if str_eq(v[j].as_str(), x) {
            return true;
        }
        j += 1;
    }
    false
}

/// Removes repeated addresses, keeping the first occurrence of each in
/// its original position.
pub fn unique_addrs(addrs: Vec<String>) -> (r: Vec<String>)
    ensures
        r@ == dedup_first(addrs@),
{
    let mut out: Vec<String> = Vec::new();
    let mut i: usize = 0;
    while i < addrs.len()
        invariant
            0 <= i <= addrs@.len(),
            out@ == dedup_first(addrs@.subrange(0, i as int)),
        decreases addrs@.len() - i,
    {
        proof {
            assert(addrs@.subrange(0, i + 1).drop_last() =~= addrs@.subrange(0, i as int));
            assert(addrs@.subrange(0, i + 1).last() == addrs@[i as int]);
            lemma_dedup_same_views(addrs@.subrange(0, i as int));
        }
        if !contains_addr(&out, addrs[i].as_str()) {
            out.push(addrs[i].clone());
        }
        i += 1;
    }
    proof {
        assert(addrs@.subrange(0, addrs@.len() as int) =~= addrs@);
    }
    out
}

/// Appending one element adds exactly its characters to the views that
/// occur in a list.
proof fn lemma_has_view_push(s: Seq<String>, x: String)
    ensures
        forall|v: Seq<char>| #[trigger]
            has_view(s.push(x), v) == (has_view(s, v) || x@ == v),
{
    assert forall|v: Seq<char>| #[trigger]
        has_view(s.push(x), v) == (has_view(s, v) || x@ == v) by {
        if has_view(s.push(x), v) {
            let j = choose|j: int| 0 <= j < s.push(x).len() && #[trigger] s.push(x)[j]@ == v;
            if j < s.len() {
                assert(s[j]@ == v);
            } else {
                assert(x@ == v);
            }
        }
        if has_view(s, v) {
            let j = choose|j: int| 0 <= j < s.len() && #[trigger] s[j]@ == v;
            assert(s.push(x)[j]@ == v);
        }
        if x@ == v {
            assert(s.push(x)[s.len() as int]@ == v);
        }
    }
}

/// An address's characters occur in the deduplicated list exactly when
/// they occur in the original.
pub proof fn lemma_dedup_same_views(s: Seq<String>)
    ensures
        forall|x: Seq<char>| #[trigger]
            has_view(dedup_first(s), x) == has_view(s, x),
    decreases s.len(),
{
    if s.len() > 0 {
        let sdl = s.drop_last();
        let last = s.last();
        lemma_dedup_same_views(sdl);
        lemma_has_view_push(sdl, last);
        lemma_has_view_push(dedup_first(sdl), last);
        assert(sdl.push(last) =~= s);
        assert forall|x: Seq<char>| #[trigger]
            has_view(dedup_first(s), x) == has_view(s, x) by {
            assert(has_view(s, x) == has_view(sdl.push(last), x));
            if has_view(sdl, last@) {
                if last@ == x {
                    assert(has_view(sdl, x));
                }
            }
        }
    }
}

/// Deduplication never grows the list.
pub proof fn lemma_dedup_len(s: Seq<String>)
    ensures
        dedup_first(s).len() <= s.len(),
    decreases s.len(),
{
    if s.len() > 0 {
        lemma_dedup_len(s.drop_last());
    }
}

/// The deduplicated list holds no two addresses with the same
/// characters.
pub proof fn lemma_dedup_unique_views(s: Seq<String>)
    ensures
        unique_views(dedup_first(s)),
    decreases s.len(),
{
    if s.len() > 0 {
        lemma_dedup_unique_views(s.drop_last());
        lemma_dedup_same_views(s.drop_last());
        let d = dedup_first(s);
        let dl = dedup_first(s.drop_last());
        if !has_view(s.drop_last(), s.last()@) {
            assert forall|i: int, j: int| #![trigger d[i]@, d[j]@] 0 <= i < j < d.len() implies d[i]@
                != d[j]@ by {
                if j < d.len() - 1 {
                    assert(dl[i]@ != dl[j]@);
                } else {
                    assert(d[j]@ == s.last()@);
                    assert(dl[i]@ == d[i]@);
                    assert(!has_view(dl, s.last()@));
                }
            }
        }
    }
}

/// Dropping the last element of a subsequence leaves a subsequence.
proof fn lemma_subsequence_drop(sub: Seq<String>, s: Seq<String>)
    requires
        is_subsequence(sub, s),
        sub.len() > 0,
    ensures
        is_subsequence(sub.drop_last(), s),
    decreases s.len(),
{
    if s.len() > 0 {
        if sub.last() == s.last() {
            if sub.drop_last().len() > 0 {
                if sub.drop_last().last() == s.last() {
                    lemma_subsequence_drop(sub.drop_last(), s.drop_last());
                } else {
                    assert(is_subsequence(sub.drop_last(), s.drop_last()));
                }
            }
        } else {
            lemma_subsequence_drop(sub, s.drop_last());
            if sub.drop_last().len() > 0 && sub.drop_last().last() == s.last() {
                lemma_subsequence_drop(sub.drop_last(), s.drop_last());
            }
        }
    }
}

/// A subsequence of `s` is also a subsequence of `s` with one more
/// element at the end.
proof fn lemma_subsequence_extend(sub: Seq<String>, s: Seq<String>, x: String)
    requires
        is_subsequence(sub, s),
    ensures
        is_subsequence(sub, s.push(x)),
{
    assert(s.push(x).drop_last() =~= s);
    if sub.len() > 0 && sub.last() == x {
        lemma_subsequence_drop(sub, s);
    }
}

/// The deduplicated list is a subsequence of the original.
pub proof fn lemma_dedup_is_subsequence(s: Seq<String>)
    ensures
        is_subsequence(dedup_first(s), s),
    decreases s.len(),
{
    if s.len() > 0 {
        lemma_dedup_is_subsequence(s.drop_last());
        if has_view(s.drop_last(), s.last()@) {
            lemma_subsequence_extend(dedup_first(s), s.drop_last(), s.last());
            assert(s.drop_last().push(s.last()) =~= s);
        } else {
            let d = dedup_first(s);
            assert(d.last() == s.last());
            assert(d.drop_last() =~= dedup_first(s.drop_last()));
        }
    }
}

/// Appends `addr` to the known-peers list unless an equal address is
/// already present; first-seen positions are preserved.
pub fn add_known_peer(known: &mut Vec<String>, addr: String) -> (added: bool)
    requires
        unique_views(old(known)@),
    ensures
        unique_views(final(known)@),
        added == !has_view(old(known)@, addr@),
        added ==> final(known)@ == old(known)@.push(addr),
        !added ==> final(known)@ == old(known)@,
        known_peers_add_rel(old(known)@, final(known)@, addr@),
{
    if contains_addr(known, addr.as_str()) {
        false
    } else {
        let ghost pre = known@;
        known.push(addr);
        proof {
            assert(known@.subrange(0, pre.len() as int) =~= pre);
            assert forall|i: int, j: int| #![trigger known@[i]@, known@[j]@]
                0 <= i < j < known@.len() implies known@[i]@ != known@[j]@ by {
                if j < known@.len() - 1 {
                    assert(pre[i]@ != pre[j]@);
                }
            }
        }
        true
    }
}

/// A currently connected peer and what the daemon has learned of it.
#[derive(Debug, Clone)]
pub struct PeerInfo {
    pub peer_id: String,
    pub connected_at: u128,
    pub last_seen_at: u128,
    pub addrs: Vec<String>,
    pub verified: bool,
    pub handshake_failures: u32,
}

/// The table of connected peers, keyed by peer identifier.
#[derive(Debug)]
pub struct PeerTable {
    pub records: Vec<PeerInfo>,
}

/// How many records in `s` are marked verified.
pub open spec fn count_verified(s: Seq<PeerInfo>) -> nat
    decreases s.len(),
{
    if s.len() == 0 {
        0
    } else {
        count_verified(s.drop_last()) + (if s.last().verified {
            1nat
        } else {
            0nat
        })
    }
}

/// Appending to the known-peers list: a new address goes to the end,
/// a repeat leaves the list unchanged.
pub open spec fn known_peers_add_rel(pre: Seq<String>, post: Seq<String>, addr: Seq<char>) -> bool {
    if has_view(pre, addr) {
        post == pre
    } else {
        &&& post.len() == pre.len() + 1
        &&& post.subrange(0, pre.len() as int) == pre
        &&& post.last()@ == addr
    }
}

/// A fresh connection's record: created now, unverified, holding the
/// one remote address.
pub open spec fn fresh_peer_record(rec: PeerInfo, pid: Seq<char>, addr: Seq<char>, now: u128) -> bool {
    &&& rec.peer_id@ == pid
    &&& rec.connected_at == now
    &&& rec.last_seen_at == now
    &&& rec.addrs@.len() == 1
    &&& rec.addrs@[0]@ == addr
    &&& rec.verified == false
    &&& rec.handshake_failures == 0
}

/// How a new connection transforms the peer table: the connecting peer
/// gets a fresh record (replacing any previous one) and every other
/// record is untouched.
pub open spec fn peers_insert_rel(
    pre: PeerTable,
    post: PeerTable,
    pid: Seq<char>,
    addr: Seq<char>,
    now: u128,
) -> bool {
    &&& post.spec_has(pid)
    &&& forall|i: int|
        0 <= i < post.records@.len() && #[trigger] post.records@[i].peer_id@ == pid
            ==> fresh_peer_record(post.records@[i], pid, addr, now)
    &&& forall|i: int|
        0 <= i < post.records@.len() && #[trigger] post.records@[i].peer_id@ != pid
            ==> exists|j: int|
            0 <= j < pre.records@.len() && post.records@[i] == #[trigger] pre.records@[j]
    &&& forall|j: int|
        0 <= j < pre.records@.len() && #[trigger] pre.records@[j].peer_id@ != pid
            ==> exists|i: int|
            0 <= i < post.records@.len() && pre.records@[j] == #[trigger] post.records@[i]
    &&& (pre.spec_has(pid) ==> post.records@.len() == pre.records@.len())
    &&& (!pre.spec_has(pid) ==> post.records@.len() == pre.records@.len() + 1)
}

/// How a closed connection transforms the peer table: the record for
/// the peer (if any) leaves and nothing else moves.
pub open spec fn peers_remove_rel(pre: PeerTable, post: PeerTable, pid: Seq<char>) -> bool {
    &&& !post.spec_has(pid)
    &&& (pre.spec_has(pid) ==> exists|i: int|
        0 <= i < pre.records@.len() && #[trigger] pre.records@[i].peer_id@ == pid
            && post.records@ == pre.records@.remove(i))
    &&& (!pre.spec_has(pid) ==> post == pre)
}

/// How a handshake transforms the peer table: the peer's record (if
/// any) is marked verified with a fresh last-seen stamp; everything
/// else is untouched.
pub open spec fn peers_mark_verified_rel(
    pre: PeerTable,
    post: PeerTable,
    pid: Seq<char>,
    now: u128,
) -> bool {
    &&& post.records@.len() == pre.records@.len()
    &&& forall|i: int|
        0 <= i < pre.records@.len() ==> {
            let r0 = pre.records@[i];
            let r1 = #[trigger] post.records@[i];
            if r0.peer_id@ == pid {
                &&& r1.peer_id == r0.peer_id
                &&& r1.connected_at == r0.connected_at
                &&& r1.last_seen_at == now
                &&& r1.addrs == r0.addrs
                &&& r1.verified == true
                &&& r1.handshake_failures == r0.handshake_failures
            } else {
                r1 == r0
            }
        }
}

/// How a plain sighting transforms the peer table: only the peer's
/// last-seen stamp moves.
pub open spec fn peers_touch_rel(pre: PeerTable, post: PeerTable, pid: Seq<char>, now: u128) -> bool {
    &&& post.records@.len() == pre.records@.len()
    &&& forall|i: int|
        0 <= i < pre.records@.len() ==> {
            let r0 = pre.records@[i];
            let r1 = #[trigger] post.records@[i];
            if r0.peer_id@ == pid {
                &&& r1.peer_id == r0.peer_id
                &&& r1.connected_at == r0.connected_at
                &&& r1.last_seen_at == now
                &&& r1.addrs == r0.addrs
                &&& r1.verified == r0.verified
                &&& r1.handshake_failures == r0.handshake_failures
            } else {
                r1 == r0
            }
        }
}

impl PeerTable {
    /// Each peer identifier appears at most once.
    pub open spec fn wf(self) -> bool {
        forall|i: int, j: int|
            #![trigger self.records[i].peer_id@, self.records[j].peer_id@]
            0 <= i < j < self.records.len() ==> self.records[i].peer_id@
                != self.records[j].peer_id@
    }

    /// The index of the record for `pid`, if one exists.
    pub open spec fn spec_find(self, pid: Seq<char>) -> Option<int> {
        if exists|i: int| 0 <= i < self.records.len() && #[trigger] self.records[i].peer_id@ == pid {
            Some(choose|i: int| 0 <= i < self.records.len() && #[trigger] self.records[i].peer_id@ == pid)
        } else {
            None
        }
    }

    /// Whether a record for `pid` exists.
    pub open spec fn spec_has(self, pid: Seq<char>) -> bool {
        self.spec_find(pid) is Some
    }

    pub fn new() -> (r: PeerTable)
        ensures
            r.wf(),
            r.records@.len() == 0,
    {
        PeerTable { records: Vec::new() }
    }

    fn find(&self, pid: &str) -> (r: Option<usize>)
        ensures
            match r {
                Some(i) => 0 <= i < self.records@.len() && self.records@[i as int].peer_id@ == pid@,
                None => !self.spec_has(pid@),
            },
    {
        let mut i: usize = 0;
        while i < self.records.len()
            invariant
                0 <= i <= self.records@.len(),
                forall|k: int| 0 <= k < i ==> #[trigger] self.records@[k].peer_id@ != pid@,
            decreases self.records@.len() - i,
        {
            if str_eq(self.records[i].peer_id.as_str(), pid) {
                return Some(i);
            }
            i += 1;
        }
        None
    }

    /// The number of connected peers.
    pub fn len(&self) -> (r: usize)
        ensures
            r == self.records@.len(),
    {
        self.records.len()
    }

    /// Whether a record for `pid` exists.
    pub fn has(&self, pid: &str) -> (r: bool)
        ensures
            r == self.spec_has(pid@),
    {
        self.find(pid).is_some()
    }

    /// Inserts a fresh record for `peer_id`, replacing any previous
    /// record under the same identifier, as a new connection does.
    pub fn insert_connected(&mut self, peer_id: String, remote_addr: String, now: u128)
        requires
            old(self).wf(),
        ensures
            final(self).wf(),
            peers_insert_rel(*old(self), *final(self), peer_id@, remote_addr@, now),
    {
        let ghost pid_view = peer_id@;
        let mut addrs: Vec<String> = Vec::new();
        addrs.push(remote_addr);
        let rec = PeerInfo {
            peer_id,
            connected_at: now,
            last_seen_at: now,
            addrs,
            verified: false,
            handshake_failures: 0,
        };
        match self.find(rec.peer_id.as_str()) {
            Some(i) => {
                let ghost pre = self.records@;
                self.records[i] = rec;
                proof {
                    assert(self.records@[i as int].peer_id@ == pid_view);
                    assert forall|a: int, b: int|
                        #![trigger self.records[a].peer_id@, self.records[b].peer_id@]
                        0 <= a < b < self.records.len() implies self.records[a].peer_id@
                        != self.records[b].peer_id@ by {
                        if a != i as int && b != i as int {
                            assert(pre[a].peer_id@ != pre[b].peer_id@);
                        } else if a == i as int {
                            assert(pre[i as int].peer_id@ != pre[b].peer_id@);
                        } else {
                            assert(pre[a].peer_id@ != pre[i as int].peer_id@);
                        }
                    }
                    assert forall|a: int|
                        0 <= a < self.records.len() && #[trigger] self.records[a].peer_id@
                            != pid_view implies exists|j: int|
                            0 <= j < pre.len() && self.records[a] == #[trigger] pre[j] by {
                        assert(self.records[a] == pre[a]);
                    }
                    assert forall|j: int|
                        0 <= j < pre.len() && #[trigger] pre[j].peer_id@ != pid_view
                        implies exists|a: int|
                            0 <= a < self.records.len() && pre[j]
                                == #[trigger] self.records@[a] by {
                        assert(pre[j] == self.records@[j]);
                    }
                }
            },
            None => {
                let ghost pre = self.records@;
                self.records.push(rec);
                proof {
                    let ghost n = self.records.len() - 1;
                    assert(self.records@[n].peer_id@ == pid_view);
                    assert forall|a: int, b: int|
                        #![trigger self.records[a].peer_id@, self.records[b].peer_id@]
                        0 <= a < b < self.records.len() implies self.records[a].peer_id@
                        != self.records[b].peer_id@ by {
                        if b < self.records.len() - 1 {
                            assert(pre[a].peer_id@ != pre[b].peer_id@);
                        } else {
                            assert(pre[a].peer_id@ != pid_view);
                        }
                    }
                    assert forall|a: int|
                        0 <= a < self.records.len() && #[trigger] self.records[a].peer_id@
                            != pid_view implies exists|j: int|
                            0 <= j < pre.len() && self.records[a] == #[trigger] pre[j] by {
                        assert(a < n);
                        assert(self.records[a] == pre[a]);
                    }
                    assert forall|j: int|
                        0 <= j < pre.len() && #[trigger] pre[j].peer_id@ != pid_view
                        implies exists|a: int|
                            0 <= a < self.records.len() && pre[j]
                                == #[trigger] self.records@[a] by {
                        assert(pre[j] == self.records@[j]);
                    }
                }
            },
        }
    }

    /// Removes the record for `pid`, as a closed connection does; the
    /// address stays in the known-peers list for future redials.
    pub fn remove(&mut self, pid: &str)
        requires
            old(self).wf(),
        ensures
            final(self).wf(),
            peers_remove_rel(*old(self), *final(self), pid@),
    {
        match self.find(pid) {
            Some(i) => {
                let ghost pre = self.records@;
                self.records.remove(i);
                proof {
                    assert(pre[i as int].peer_id@ == pid@);
                    assert forall|a: int, b: int|
                        #![trigger self.records[a].peer_id@, self.records[b].peer_id@]
                        0 <= a < b < self.records.len() implies self.records[a].peer_id@
                        != self.records[b].peer_id@ by {
                        let a0 = if a < i { a } else { a + 1 };
                        let b0 = if b < i { b } else { b + 1 };
                        assert(self.records[a] == pre[a0]);
                        assert(self.records[b] == pre[b0]);
                        assert(pre[a0].peer_id@ != pre[b0].peer_id@);
                    }
                    assert forall|k: int| 0 <= k < self.records.len()
                        implies #[trigger] self.records[k].peer_id@ != pid@ by {
                        let k0 = if k < i { k } else { k + 1 };
                        assert(self.records[k] == pre[k0]);
                    }
                }
            },
            None => {},
        }
    }

    /// Marks the peer verified after a handshake and refreshes its
    /// last-seen stamp; unknown peers are left alone.
    pub fn mark_verified(&mut self, pid: &str, now: u128)
        requires
            old(self).wf(),
        ensures
            final(self).wf(),
            peers_mark_verified_rel(*old(self), *final(self), pid@, now),
    {
        match self.find(pid) {
            Some(i) => {
                let ghost pre = self.records@;
                self.records[i].verified = true;
                self.records[i].last_seen_at = now;
                proof {
                    assert forall|a: int, b: int|
                        #![trigger self.records[a].peer_id@, self.records[b].peer_id@]
                        0 <= a < b < self.records.len() implies self.records[a].peer_id@
                        != self.records[b].peer_id@ by {
                        assert(pre[a].peer_id@ != pre[b].peer_id@);
                    }
                }
            },
            None => {},
        }
    }

    /// Refreshes the peer's last-seen stamp; unknown peers are left
    /// alone.
    pub fn touch(&mut self, pid: &str, now: u128)
        requires
            old(self).wf(),
        ensures
            final(self).wf(),
            peers_touch_rel(*old(self), *final(self), pid@, now),
    {
        match self.find(pid) {
            Some(i) => {
                let ghost pre = self.records@;
                self.records[i].last_seen_at = now;
                proof {
                    assert forall|a: int, b: int|
                        #![trigger self.records[a].peer_id@, self.records[b].peer_id@]
                        0 <= a < b < self.records.len() implies self.records[a].peer_id@
                        != self.records[b].peer_id@ by {
                        assert(pre[a].peer_id@ != pre[b].peer_id@);
                    }
                }
            },
            None => {},
        }
    }

    /// How many connected peers have completed the handshake; the
    /// telemetry stream reports this as the active-scout count.
    pub fn verified_count(&self) -> (r: usize)
        ensures
            r == count_verified(self.records@),
    {
        let mut n: usize = 0;
        let mut i: usize = 0;
        while i < self.records.len()
            invariant
                0 <= i <= self.records@.len(),
                n == count_verified(self.records@.subrange(0, i as int)),
                n <= i,
            decreases self.records@.len() - i,
        {
            proof {
                assert(self.records@.subrange(0, i + 1).drop_last() =~= self.records@.subrange(
                    0,
                    i as int,
                ));
            }
            if self.records[i].verified {
                n += 1;
            }
            i += 1;
        }
        proof {
            assert(self.records@.subrange(0, self.records@.len() as int) =~= self.records@);
        }
        n
    }
}

} // verus!
