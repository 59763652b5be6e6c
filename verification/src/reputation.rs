//! The scout reputation engine: a sliding window of accept/reject
//! verdicts per peer, a ban rule over the window, and lazy ban expiry.
//!
//! The rule is three-fold on purpose: a minimum sample count suppresses
//! false positives from short histories, the sliding window favours
//! recency over lifetime counts, and the cooldown lets reputation
//! recover. A peer is banned when its window holds at least
//! `MIN_SAMPLES_FOR_BAN` verdicts and its success rate is below 55
//! percent — stated here in integers as `20 * successes < 11 * window`.

use crate::strutil::str_eq;
use std::collections::VecDeque;
use std::ops::Index;
use vstd::prelude::*;
use vstd::string::*;

verus! {

/// How many recent verdicts a peer's window retains.
pub const WINDOW_SIZE: usize = 10;

/// How many verdicts the window must hold before a ban can trigger.
pub const MIN_SAMPLES_FOR_BAN: usize = 5;

/// How long a triggered ban lasts.
pub const BAN_COOLDOWN_MS: u128 = 60000;

/// An externally reported verdict on a scout's draft.
#[derive(Debug, Clone)]
pub struct ScoutPenaltyUpdate {
    pub peer_id: String,
    pub accepted: bool,
    pub reason: Option<String>,
}

/// The admission status reported back for a scout. The window's success
/// rate is carried as the exact pair `window_successes / window_len`
/// (1 when the window is empty); `score` is that rate as a percentage,
/// rounded to the nearest integer.
#[derive(Debug, Clone)]
pub struct ScoutPenaltyStatus {
    pub peer_id: String,
    pub score: i32,
    pub failures: u32,
    pub accepted: u32,
    pub blackholed: bool,
    pub window_successes: u32,
    pub window_len: u32,
    pub last_reason: Option<String>,
}

/// Per-peer reputation state.
#[derive(Debug)]
pub struct ScoutReputationEntry {
    pub peer_id: String,
    pub recent: VecDeque<bool>,
    pub failure_count: u32,
    pub accepted_count: u32,
    pub banned_until_ms: Option<u128>,
    pub last_reason: Option<String>,
}

/// The reputation book over all known scouts.
#[derive(Debug)]
pub struct ScoutPenaltyBook {
    pub entries: Vec<ScoutReputationEntry>,
}

/// How many verdicts in `w` are accepts.
pub open spec fn count_true(w: Seq<bool>) -> nat
    decreases w.len(),
{
    if w.len() == 0 {
        0
    } else {
        count_true(w.drop_last()) + (if w.last() {
            1nat
        } else {
            0nat
        })
    }
}

/// The window after a verdict arrives: the oldest verdict leaves once
/// the window is full.
pub open spec fn pushed_window(w: Seq<bool>, b: bool) -> Seq<bool> {
    if w.len() >= WINDOW_SIZE {
        w.drop_first().push(b)
    } else {
        w.push(b)
    }
}

/// The ban rule: enough samples and a success rate below 55 percent.
pub open spec fn ban_rule(w: Seq<bool>) -> bool {
    w.len() >= MIN_SAMPLES_FOR_BAN && 20 * count_true(w) < 11 * w.len()
}

/// The window's success rate as a percentage rounded to nearest
/// (halves away from zero); 100 for an empty window.
pub open spec fn score_of(w: Seq<bool>) -> int {
    if w.len() == 0 {
        100
    } else {
        (200 * count_true(w) + w.len()) as int / (2 * w.len()) as int
    }
}

/// Whether a ban stamp is still in force at `now`.
pub open spec fn ban_active(b: Option<u128>, now: u128) -> bool {
    match b {
        Some(until) => until > now,
        None => false,
    }
}

/// `x + 1`, saturating at the top of the counter.
pub open spec fn add_sat_u32(x: u32) -> u32 {
    if x == u32::MAX {
        x
    } else {
        (x + 1) as u32
    }
}

/// How one verdict transforms a peer's entry: the window slides, the
/// lifetime counter steps, a failure's reason is recorded, the ban rule
/// is evaluated on the new window, and a ban that is no longer active
/// is cleared.
pub open spec fn update_applied(
    pre: ScoutReputationEntry,
    post: ScoutReputationEntry,
    accepted: bool,
    reason: Option<String>,
    now: u128,
) -> bool {
    let w = pushed_window(pre.recent@, accepted);
    let banned1 = if ban_rule(w) {
        Some((now + BAN_COOLDOWN_MS) as u128)
    } else {
        pre.banned_until_ms
    };
    let active = ban_active(banned1, now);
    &&& post.peer_id@ == pre.peer_id@
    &&& post.recent@ == w
    &&& post.accepted_count == (if accepted {
        add_sat_u32(pre.accepted_count)
    } else {
        pre.accepted_count
    })
    &&& post.failure_count == (if accepted {
        pre.failure_count
    } else {
        add_sat_u32(pre.failure_count)
    })
    &&& post.last_reason == (if !accepted && reason is Some {
        reason
    } else {
        pre.last_reason
    })
    &&& post.banned_until_ms == (if active {
        banned1
    } else {
        None::<u128>
    })
}

/// What a status record reports of an entry at `now`.
pub open spec fn status_matches(st: ScoutPenaltyStatus, e: ScoutReputationEntry, now: u128) -> bool {
    &&& st.peer_id@ == e.peer_id@
    &&& st.score == score_of(e.recent@)
    &&& st.failures == e.failure_count
    &&& st.accepted == e.accepted_count
    &&& st.blackholed == ban_active(e.banned_until_ms, now)
    &&& st.window_successes == count_true(e.recent@)
    &&& st.window_len == e.recent@.len()
    &&& st.last_reason == e.last_reason
}

/// An entry as created for a peer seen for the first time, after its
/// first verdict.
pub open spec fn fresh_entry_post(
    e: ScoutReputationEntry,
    pid: Seq<char>,
    accepted: bool,
    reason: Option<String>,
) -> bool {
    &&& e.peer_id@ == pid
    &&& e.recent@ =~= seq![accepted]
    &&& e.accepted_count == (if accepted {
        1u32
    } else {
        0u32
    })
    &&& e.failure_count == (if accepted {
        0u32
    } else {
        1u32
    })
    &&& e.last_reason == (if !accepted && reason is Some {
        reason
    } else {
        None::<String>
    })
    &&& e.banned_until_ms is None
}

/// How a blackhole check transforms the book: the checked peer's
/// lapsed ban (if any) is cleared, and nothing else changes.
pub open spec fn lazy_expiry_rel(
    pre: ScoutPenaltyBook,
    post: ScoutPenaltyBook,
    pid: Seq<char>,
    now: u128,
) -> bool {
    &&& post.entries@.len() == pre.entries@.len()
    &&& forall|i: int|
        0 <= i < pre.entries@.len() ==> {
            let e0 = pre.entries@[i];
            let e1 = #[trigger] post.entries@[i];
            if e0.peer_id@ == pid && e0.banned_until_ms is Some && !ban_active(
                e0.banned_until_ms,
                now,
            ) {
                &&& e1.peer_id == e0.peer_id
                &&& e1.recent == e0.recent
                &&& e1.failure_count == e0.failure_count
                &&& e1.accepted_count == e0.accepted_count
                &&& e1.banned_until_ms is None
                &&& e1.last_reason == e0.last_reason
            } else {
                e1 == e0
            }
        }
}

/// No window ever holds more accepts than verdicts.
pub proof fn lemma_count_true_le(w: Seq<bool>)
    ensures
        count_true(w) <= w.len(),
    decreases w.len(),
{
    if w.len() > 0 {
        lemma_count_true_le(w.drop_last());
    }
}

/// A window of nothing but accepts counts them all.
pub proof fn lemma_count_true_all(w: Seq<bool>)
    requires
        forall|i: int| 0 <= i < w.len() ==> w[i],
    ensures
        count_true(w) == w.len(),
    decreases w.len(),
{
    if w.len() > 0 {
        lemma_count_true_all(w.drop_last());
    }
}

/// Law: a window of nothing but accepts never triggers the ban rule.
pub proof fn lemma_success_only_never_bans(w: Seq<bool>)
    requires
        forall|i: int| 0 <= i < w.len() ==> w[i],
    ensures
        !ban_rule(w),
{
    lemma_count_true_all(w);
}

/// Law: a scout with a success-only history is never blackholed. If an
/// entry's window holds only accepts and it carries no ban, then after
/// one more accepted verdict the window still holds only accepts, no
/// ban is set, and a status taken of the new entry reports it not
/// blackholed. By induction along a run of accepted verdicts, a
/// success-only sequence never bans.
pub proof fn lemma_success_only_never_blackholed(
    pre: ScoutReputationEntry,
    post: ScoutReputationEntry,
    reason: Option<String>,
    now: u128,
)
    requires
        update_applied(pre, post, true, reason, now),
        forall|i: int| 0 <= i < pre.recent@.len() ==> pre.recent@[i],
        pre.banned_until_ms is None,
    ensures
        forall|i: int| 0 <= i < post.recent@.len() ==> post.recent@[i],
        post.banned_until_ms is None,
        !ban_active(post.banned_until_ms, now),
{
    let w = pushed_window(pre.recent@, true);
    assert forall|i: int| 0 <= i < w.len() implies w[i] by {
        if pre.recent@.len() >= WINDOW_SIZE {
            if i < w.len() - 1 {
                assert(w[i] == pre.recent@[i + 1]);
            }
        } else {
            if i < w.len() - 1 {
                assert(w[i] == pre.recent@[i]);
            }
        }
    }
    lemma_success_only_never_bans(w);
}

/// Law: a success-only sequence never bans. Along any chain of
/// entries that starts with an accept-only window and no ban, where
/// each entry steps to the next by an accepted verdict — whatever the
/// reasons or instants — every entry of the chain keeps an accept-only
/// window, carries no ban, and is not blackholed at any instant.
pub proof fn lemma_success_run_never_bans(
    chain: Seq<ScoutReputationEntry>,
    reasons: Seq<Option<String>>,
    times: Seq<u128>,
)
    requires
        chain.len() >= 1,
        reasons.len() == chain.len() - 1,
        times.len() == chain.len() - 1,
        forall|i: int|
            0 <= i < chain.len() - 1 ==> update_applied(
                #[trigger] chain[i],
                chain[i + 1],
                true,
                reasons[i],
                times[i],
            ),
        forall|j: int| 0 <= j < chain[0].recent@.len() ==> chain[0].recent@[j],
        chain[0].banned_until_ms is None,
    ensures
        forall|i: int| 0 <= i < chain.len() ==> (#[trigger] chain[i].banned_until_ms) is None,
        forall|i: int, t: u128|
            0 <= i < chain.len() ==> !#[trigger] ban_active(chain[i].banned_until_ms, t),
    decreases chain.len(),
{
    lemma_success_window_all_true(chain, reasons, times);
}

/// Along a success-only chain every entry's window stays accept-only.
#[verifier::rlimit(50)]
proof fn lemma_success_window_all_true(
    chain: Seq<ScoutReputationEntry>,
    reasons: Seq<Option<String>>,
    times: Seq<u128>,
)
    requires
        chain.len() >= 1,
        reasons.len() == chain.len() - 1,
        times.len() == chain.len() - 1,
        forall|i: int|
            0 <= i < chain.len() - 1 ==> update_applied(
                #[trigger] chain[i],
                chain[i + 1],
                true,
                reasons[i],
                times[i],
            ),
        forall|j: int| 0 <= j < chain[0].recent@.len() ==> chain[0].recent@[j],
        chain[0].banned_until_ms is None,
    ensures
        forall|i: int, j: int|
            0 <= i < chain.len() && 0 <= j < chain[i].recent@.len()
                ==> #[trigger] chain[i].recent@[j],
        forall|i: int| 0 <= i < chain.len() ==> (#[trigger] chain[i].banned_until_ms) is None,
    decreases chain.len(),
{
    if chain.len() > 1 {
        let prefix = chain.drop_last();
        let rs = reasons.drop_last();
        let ts = times.drop_last();
        assert forall|i: int| 0 <= i < prefix.len() - 1 implies update_applied(
            #[trigger] prefix[i],
            prefix[i + 1],
            true,
            rs[i],
            ts[i],
        ) by {
            assert(prefix[i] == chain[i]);
            assert(prefix[i + 1] == chain[i + 1]);
            assert(rs[i] == reasons[i]);
            assert(ts[i] == times[i]);
        }
        assert(prefix[0] == chain[0]);
        lemma_success_window_all_true(prefix, rs, ts);
        let n = chain.len() - 2;
        assert(chain[n] == prefix[n]);
        assert forall|j: int| 0 <= j < chain[n].recent@.len() implies chain[n].recent@[j] by {
            assert(prefix[n].recent@[j]);
        }
        lemma_success_only_never_blackholed(chain[n], chain[n + 1], reasons[n], times[n]);
        assert forall|i: int, j: int|
            0 <= i < chain.len() && 0 <= j < chain[i].recent@.len()
            implies #[trigger] chain[i].recent@[j] by {
            if i < chain.len() - 1 {
                assert(chain[i] == prefix[i]);
                assert(prefix[i].recent@[j]);
            }
        }
        assert forall|i: int| 0 <= i < chain.len()
            implies (#[trigger] chain[i].banned_until_ms) is None by {
            if i < chain.len() - 1 {
                assert(chain[i] == prefix[i]);
                assert(prefix[i].banned_until_ms is None);
            }
        }
    }
}

/// Law: a failure's reason is kept as `last_reason` until another
/// failure with a reason overwrites it; accepted verdicts and
/// reasonless failures leave it alone.
pub proof fn lemma_reason_persists(
    pre: ScoutReputationEntry,
    post: ScoutReputationEntry,
    accepted: bool,
    reason: Option<String>,
    now: u128,
)
    requires
        update_applied(pre, post, accepted, reason, now),
    ensures
        accepted ==> post.last_reason == pre.last_reason,
        !accepted && reason is Some ==> post.last_reason == reason,
        !accepted && reason is None ==> post.last_reason == pre.last_reason,
{
}

/// Counts the accepted verdicts in a window.
fn window_successes(w: &VecDeque<bool>) -> (n: usize)
    ensures
        n == count_true(w@),
        n <= w@.len(),
{
    let mut n: usize = 0;
    let mut i: usize = 0;
    while i < w.len()
        invariant
            0 <= i <= w@.len(),
            n == count_true(w@.subrange(0, i as int)),
            n <= i,
        decreases w@.len() - i,
    {
        proof {
            assert(w@.subrange(0, i + 1).drop_last() =~= w@.subrange(0, i as int));
        }
        if *w.index(i) {
            n += 1;
        }
        i += 1;
    }
    proof {
        assert(w@.subrange(0, w@.len() as int) =~= w@);
    }
    n
}

/// The window's rounded percentage score.
fn score_exec(successes: usize, len: usize) -> (s: i32)
    requires
        successes <= len,
        len <= WINDOW_SIZE,
    ensures
        s == score_of_counts(successes as nat, len as nat),
{
    if len == 0 {
        100
    } else {
        ((200 * successes + len) / (2 * len)) as i32
    }
}

/// `score_of` stated over the pair of counts.
pub open spec fn score_of_counts(successes: nat, len: nat) -> int {
    if len == 0 {
        100
    } else {
        (200 * successes + len) as int / (2 * len) as int
    }
}

/// Builds the status record an entry reports at `now`.
fn make_status(e: &ScoutReputationEntry, now: u128) -> (st: ScoutPenaltyStatus)
    requires
        e.recent@.len() <= WINDOW_SIZE,
    ensures
        status_matches(st, *e, now),
{
    let successes = window_successes(&e.recent);
    let len = e.recent.len();
    let blackholed = match e.banned_until_ms {
        Some(until) => until > now,
        None => false,
    };
    proof {
        lemma_count_true_le(e.recent@);
    }
    ScoutPenaltyStatus {
        peer_id: e.peer_id.clone(),
        score: score_exec(successes, len),
        failures: e.failure_count,
        accepted: e.accepted_count,
        blackholed,
        window_successes: successes as u32,
        window_len: len as u32,
        last_reason: match &e.last_reason {
            Some(r) => Some(r.clone()),
            None => None,
        },
    }
}

impl ScoutPenaltyBook {
    /// Peer identifiers are unique and no window is over-full.
    pub open spec fn wf(self) -> bool {
        &&& forall|i: int, j: int|
            #![trigger self.entries[i].peer_id@, self.entries[j].peer_id@]
            0 <= i < j < self.entries.len() ==> self.entries[i].peer_id@
                != self.entries[j].peer_id@
        &&& forall|i: int|
            0 <= i < self.entries.len() ==> #[trigger] self.entries[i].recent@.len() <= WINDOW_SIZE
    }

    /// Whether the book holds an entry for `pid`.
    pub open spec fn spec_has(self, pid: Seq<char>) -> bool {
        exists|i: int| 0 <= i < self.entries.len() && #[trigger] self.entries[i].peer_id@ == pid
    }

    /// Whether the entry for `pid`, if any, carries a ban still in
    /// force at `now`.
    pub open spec fn spec_blackholed(self, pid: Seq<char>, now: u128) -> bool {
        exists|i: int|
            0 <= i < self.entries.len() && #[trigger] self.entries[i].peer_id@ == pid
                && ban_active(self.entries[i].banned_until_ms, now)
    }

    pub fn new() -> (r: ScoutPenaltyBook)
        ensures
            r.wf(),
            r.entries@.len() == 0,
    {
        ScoutPenaltyBook { entries: Vec::new() }
    }

    fn find(&self, pid: &str) -> (r: Option<usize>)
        ensures
            match r {
                Some(i) => 0 <= i < self.entries@.len() && self.entries@[i as int].peer_id@ == pid@,
                None => !self.spec_has(pid@),
            },
    {
        let mut i: usize = 0;
        while i < self.entries.len()
            invariant
                0 <= i <= self.entries@.len(),
                forall|k: int| 0 <= k < i ==> #[trigger] self.entries@[k].peer_id@ != pid@,
            decreases self.entries@.len() - i,
        {
            if str_eq(self.entries[i].peer_id.as_str(), pid) {
                return Some(i);
            }
            i += 1;
        }
        None
    }

    /// Applies one verdict and returns the peer's resulting status.
    pub fn apply_update(&mut self, update: ScoutPenaltyUpdate, now: u128) -> (st:
        ScoutPenaltyStatus)
        requires
            old(self).wf(),
            now <= u128::MAX - BAN_COOLDOWN_MS,
        ensures
            final(self).wf(),
            final(self).spec_has(update.peer_id@),
            // a known peer's entry steps by `update_applied`; the rest stay
            old(self).spec_has(update.peer_id@) ==> exists|i: int|
                0 <= i < old(self).entries@.len() && #[trigger] old(self).entries@[i].peer_id@
                    == update.peer_id@ && update_applied(
                    old(self).entries@[i],
                    final(self).entries@[i],
                    update.accepted,
                    update.reason,
                    now,
                ) && final(self).entries@ == old(self).entries@.update(
                    i,
                    final(self).entries@[i],
                ) && status_matches(st, final(self).entries@[i], now),
            // an unseen peer gets a fresh entry at the end
            !old(self).spec_has(update.peer_id@) ==> {
                &&& final(self).entries@.len() == old(self).entries@.len() + 1
                &&& final(self).entries@.subrange(0, old(self).entries@.len() as int) == old(
                    self,
                ).entries@
                &&& fresh_entry_post(
                    final(self).entries@.last(),
                    update.peer_id@,
                    update.accepted,
                    update.reason,
                )
                &&& status_matches(st, final(self).entries@.last(), now)
            },
    {
        let ghost mut was_fresh: bool = false;
        let i: usize = match self.find(update.peer_id.as_str()) {
            Some(i) => i,
            None => {
                let fresh = ScoutReputationEntry {
                    peer_id: update.peer_id.clone(),
                    recent: VecDeque::new(),
                    failure_count: 0,
                    accepted_count: 0,
                    banned_until_ms: None,
                    last_reason: None,
                };
                self.entries.push(fresh);
                proof {
                    was_fresh = true;
                }
                self.entries.len() - 1
            },
        };
        let ghost book_pre = self.entries@;
        let ghost entry_pre = self.entries@[i as int];

        // slide the window
        if self.entries[i].recent.len() >= WINDOW_SIZE {
            self.entries[i].recent.pop_front();
        }
        self.entries[i].recent.push_back(update.accepted);
        proof {
            if entry_pre.recent@.len() >= WINDOW_SIZE {
                assert(self.entries@[i as int].recent@ =~= pushed_window(
                    entry_pre.recent@,
                    update.accepted,
                ));
            }
            lemma_count_true_le(self.entries@[i as int].recent@);
        }

        // lifetime counters and the failure reason
        if update.accepted {
            if self.entries[i].accepted_count < u32::MAX {
                self.entries[i].accepted_count = self.entries[i].accepted_count + 1;
            }
        } else {
            if self.entries[i].failure_count < u32::MAX {
                self.entries[i].failure_count = self.entries[i].failure_count + 1;
            }
            match &update.reason {
                Some(r) => {
                    self.entries[i].last_reason = Some(r.clone());
                },
                None => {},
            }
        }

        // the ban rule on the new window
        let successes = window_successes(&self.entries[i].recent);
        let len = self.entries[i].recent.len();
        if len >= MIN_SAMPLES_FOR_BAN && 20 * successes < 11 * len {
            self.entries[i].banned_until_ms = Some(now + BAN_COOLDOWN_MS);
        }
        let blackholed = match self.entries[i].banned_until_ms {
            Some(until) => until > now,
            None => false,
        };
        if !blackholed {
            self.entries[i].banned_until_ms = None;
        }

        let st = make_status(&self.entries[i], now);
        proof {
            let e2 = self.entries@[i as int];
            assert(update_applied(entry_pre, e2, update.accepted, update.reason, now));
            assert(self.entries@ =~= book_pre.update(i as int, e2));
            assert(e2.peer_id@ == update.peer_id@);
            assert forall|a: int, b: int|
                #![trigger self.entries[a].peer_id@, self.entries[b].peer_id@]
                0 <= a < b < self.entries.len() implies self.entries[a].peer_id@
                != self.entries[b].peer_id@ by {
                if a != i as int && b != i as int {
                    assert(book_pre[a].peer_id@ != book_pre[b].peer_id@);
                } else if a == i as int {
                    assert(book_pre[i as int].peer_id@ != book_pre[b].peer_id@);
                } else {
                    assert(book_pre[a].peer_id@ != book_pre[i as int].peer_id@);
                }
            }
            assert forall|k: int| 0 <= k < self.entries.len()
                implies #[trigger] self.entries[k].recent@.len() <= WINDOW_SIZE by {
                if k != i as int {
                    assert(self.entries@[k] == book_pre[k]);
                }
            }
            if was_fresh {
                assert(book_pre == old(self).entries@.push(entry_pre));
                assert(i as int == old(self).entries@.len());
                assert(self.entries@.subrange(0, old(self).entries@.len() as int) =~= old(
                    self,
                ).entries@);
                assert(self.entries@.last() == e2);
                assert(entry_pre.recent@.len() == 0);
                assert(pushed_window(entry_pre.recent@, update.accepted) =~= seq![
                    update.accepted,
                ]);
                assert(!ban_rule(e2.recent@));
                assert(fresh_entry_post(e2, update.peer_id@, update.accepted, update.reason));
                assert(!old(self).spec_has(update.peer_id@));
            } else {
                assert(book_pre == old(self).entries@);
                assert(old(self).entries@[i as int].peer_id@ == update.peer_id@);
                assert(old(self).spec_has(update.peer_id@));
            }
        }
        st
    }

    /// Whether the peer is currently blackholed; a ban that has lapsed
    /// is cleared on this read.
    pub fn is_blackholed(&mut self, peer_id: &str, now: u128) -> (r: bool)
        requires
            old(self).wf(),
        ensures
            final(self).wf(),
            r == old(self).spec_blackholed(peer_id@, now),
            lazy_expiry_rel(*old(self), *final(self), peer_id@, now),
    {
        match self.find(peer_id) {
            Some(i) => {
                let ghost book_pre = self.entries@;
                let r = match self.entries[i].banned_until_ms {
                    Some(until) => {
                        if until > now {
                            true
                        } else {
                            self.entries[i].banned_until_ms = None;
                            false
                        }
                    },
                    None => false,
                };
                proof {
                    assert forall|a: int, b: int|
                        #![trigger self.entries[a].peer_id@, self.entries[b].peer_id@]
                        0 <= a < b < self.entries.len() implies self.entries[a].peer_id@
                        != self.entries[b].peer_id@ by {
                        assert(book_pre[a].peer_id@ != book_pre[b].peer_id@);
                    }
                    if r {
                        assert(book_pre[i as int].peer_id@ == peer_id@ && ban_active(
                            book_pre[i as int].banned_until_ms,
                            now,
                        ));
                    }
                }
                r
            },
            None => {
                false
            },
        }
    }

    /// The status of every known scout at `now`; bans are judged but
    /// not expired by this read.
    pub fn all_statuses(&self, now: u128) -> (r: Vec<ScoutPenaltyStatus>)
        requires
            self.wf(),
        ensures
            r@.len() == self.entries@.len(),
            forall|i: int|
                0 <= i < r@.len() ==> status_matches(
                    #[trigger] r@[i],
                    self.entries@[i],
                    now,
                ),
    {
        let mut out: Vec<ScoutPenaltyStatus> = Vec::new();
        let mut i: usize = 0;
        while i < self.entries.len()
            invariant
                self.wf(),
                0 <= i <= self.entries@.len(),
                out@.len() == i,
                forall|k: int|
                    0 <= k < i ==> status_matches(#[trigger] out@[k], self.entries@[k], now),
            decreases self.entries@.len() - i,
        {
            let st = make_status(&self.entries[i], now);
            out.push(st);
            i += 1;
        }
        out
    }
}

/// Whether an inbound connection from `peer_id` must be refused; a
/// lapsed ban is cleared by the check.
pub fn should_reject_peer_connection(penalties: &mut ScoutPenaltyBook, peer_id: &str, now: u128) -> (r:
    bool)
    requires
        old(penalties).wf(),
    ensures
        final(penalties).wf(),
        r == old(penalties).spec_blackholed(peer_id@, now),
        final(penalties).entries@.len() == old(penalties).entries@.len(),
{
    penalties.is_blackholed(peer_id, now)
}

} // verus!
