//! Desktop notifications: which windows they belong to, the bubble they put
//! on a button, and the cache of bus connections' process ids.
use vstd::prelude::*;

use crate::strmap::StrMap;
use crate::windows::WindowInfo;

verus! {

broadcast use vstd::string::group_string_axioms;

/// How urgent a notification is.
#[derive(PartialEq, Eq, Structural, Clone, Copy)]
pub enum NotificationUrgency {
    Low,
    Normal,
    Critical,
}

impl Default for NotificationUrgency {
    fn default() -> (r: Self)
        ensures
            r == NotificationUrgency::Normal,
    {
        NotificationUrgency::Normal
    }
}

pub open spec fn urgency_of(hint: Option<u8>) -> NotificationUrgency {
    match hint {
        Some(0) => NotificationUrgency::Low,
        Some(2) => NotificationUrgency::Critical,
        _ => NotificationUrgency::Normal,
    }
}

impl NotificationUrgency {
    /// The urgency a notification's hint gives: 0 is low, 2 critical, and
    /// anything else, or no hint, normal.
    pub fn from_hint(hint: Option<u8>) -> (r: Self)
        ensures
            r == urgency_of(hint),
    {
        match hint {
            Some(0) => NotificationUrgency::Low,
            Some(2) => NotificationUrgency::Critical,
            _ => NotificationUrgency::Normal,
        }
    }
}

/// The bubble a notification puts on a window's button.
pub struct BubbleState {
    pub active: bool,
    pub urgency: NotificationUrgency,
}

impl BubbleState {
    /// No bubble.
    pub fn new() -> (s: Self)
        ensures
            !s.active && s.urgency == NotificationUrgency::Normal,
    {
        BubbleState { active: false, urgency: NotificationUrgency::Normal }
    }

    /// Shows the bubble with `urgency`; the button is always redrawn.
    pub fn mark_notification_urgent(&mut self, urgency: NotificationUrgency)
        ensures
            final(self).active && final(self).urgency == urgency,
    {
        self.active = true;
        self.urgency = urgency;
    }

    /// Takes the bubble away; returns whether there was one, and so whether
    /// the button is to be redrawn.
    pub fn clear_notification_urgent(&mut self) -> (redraw: bool)
        ensures
            redraw == old(self).active,
            !final(self).active,
            final(self).urgency == old(self).urgency,
    {
        if self.active {
            self.active = false;
            true
        } else {
            false
        }
    }
}

/// An action a notification offers: its key and the text to show for it.
pub struct ActionItem {
    pub id: String,
    pub localised: String,
}

/// The actions of a notification.
pub struct ActionList(pub Vec<ActionItem>);

impl ActionList {
    /// Pairs the flat list the bus carries, key then text; an odd last
    /// element is dropped.
    pub fn from_flat(flat: Vec<String>) -> (r: ActionList)
        ensures
            r.0@.len() == flat@.len() / 2,
            forall|i: int|
                0 <= i < r.0@.len() ==> (#[trigger] r.0@[i]).id == flat@[2 * i] && r.0@[i].localised
                    == flat@[2 * i + 1],
    {
        let mut out: Vec<ActionItem> = Vec::new();
        let mut i: usize = 0;
        while i + 1 < flat.len()
            invariant
                i == 2 * out@.len(),
                i <= flat@.len(),
                forall|k: int|
                    0 <= k < out@.len() ==> (#[trigger] out@[k]).id == flat@[2 * k] && out@[k].localised
                        == flat@[2 * k + 1],
            decreases flat@.len() - i,
        {
            out.push(ActionItem { id: flat[i].clone(), localised: flat[i + 1].clone() });
            i = i + 2;
        }
        ActionList(out)
    }
}

/// The hints of a notification that are read.
pub struct HintData {
    pub desktop_entry: Option<String>,
    pub sender_pid: Option<i64>,
    pub urgency: Option<u8>,
}

/// The windows a notification belongs to: unfocused ones whose process is
/// in the sender's chain of ancestor processes, in the order of `windows`,
/// each with the urgency the hint gives.
pub open spec fn matched_windows(
    urgency_hint: Option<u8>,
    pid_chain: Seq<i64>,
    windows: Seq<WindowInfo>,
) -> Seq<(u64, NotificationUrgency)>
    decreases windows.len(),
{
    if windows.len() == 0 {
        Seq::empty()
    } else {
        let prev = matched_windows(urgency_hint, pid_chain, windows.drop_last());
        let w = windows.last().inner;
        if !w.is_focused && w.pid is Some && pid_chain.contains(w.pid->0 as i64) {
            prev.push((w.id, urgency_of(urgency_hint)))
        } else {
            prev
        }
    }
}

fn chain_has(chain: &Vec<i64>, pid: i64) -> (b: bool)
    ensures
        b == chain@.contains(pid),
{
    let mut i: usize = 0;
    while i < chain.len()
        invariant
            i <= chain@.len(),
            forall|k: int| 0 <= k < i ==> chain@[k] != pid,
        decreases chain@.len() - i,
    {
        if chain[i] == pid {
            proof {
                assert(chain@[i as int] == pid);
            }
            return true;
        }
        i = i + 1;
    }
    false
}

/// The windows a notification belongs to.
pub fn match_notification(urgency_hint: Option<u8>, pid_chain: &Vec<i64>, windows: &Vec<WindowInfo>) -> (r:
    Vec<(u64, NotificationUrgency)>)
    ensures
        r@ == matched_windows(urgency_hint, pid_chain@, windows@),
{
    let urgency = NotificationUrgency::from_hint(urgency_hint);
    let mut out: Vec<(u64, NotificationUrgency)> = Vec::new();
    let mut i: usize = 0;
    while i < windows.len()
        invariant
            i <= windows@.len(),
            urgency == urgency_of(urgency_hint),
            out@ == matched_windows(urgency_hint, pid_chain@, windows@.take(i as int)),
        decreases windows@.len() - i,
    {
        proof {
            assert(windows@.take(i + 1).drop_last() =~= windows@.take(i as int));
        }
        let w = &windows[i].inner;
        if !w.is_focused {
            if let Some(pid) = w.pid {
                if chain_has(pid_chain, pid as i64) {
                    out.push((w.id, urgency));
                }
            }
        }
        i = i + 1;
    }
    proof {
        assert(windows@.take(windows@.len() as int) =~= windows@);
    }
    out
}

/// The ancestors of a notification's sender, collected by walking the
/// process tree upward one `/proc` read at a time: the sender first, then
/// each process's parent, up to and including the root, which has no parent
/// (its recorded parent is 0). The walk ends early where a parent cannot be
/// read.
pub struct PidChain {
    pub pids: Vec<i64>,
    pub done: bool,
}

/// The chain that the parents `readings`, read in turn for each process of
/// the chain so far, build from `start`.
pub open spec fn walk(start: Option<i64>, readings: Seq<Option<i32>>) -> (Seq<i64>, bool)
    decreases readings.len(),
{
    if readings.len() == 0 {
        match start {
            Some(p) => (seq![p], false),
            None => (Seq::empty(), true),
        }
    } else {
        let (pids, done) = walk(start, readings.drop_last());
        if done {
            (pids, done)
        } else {
            match readings.last() {
                Some(parent) => if parent > 0 {
                    (pids.push(parent as i64), false)
                } else {
                    (pids, true)
                },
                None => (pids, true),
            }
        }
    }
}

impl PidChain {
    /// A walk from the sender `start_pid`; without a sender the chain is
    /// empty and complete.
    pub fn new(start_pid: Option<i64>) -> (c: Self)
        ensures
            (c.pids@, c.done) == walk(start_pid, Seq::empty()),
    {
        match start_pid {
            Some(p) => PidChain { pids: vec![p], done: false },
            None => PidChain { pids: Vec::new(), done: true },
        }
    }

    /// The process whose parent is to be read next, while the walk goes on.
    pub fn current(&self) -> (r: Option<i64>)
        requires
            !self.done ==> self.pids@.len() > 0,
        ensures
            r == if self.done {
                None
            } else {
                Some(self.pids@.last())
            },
    {
        if self.done {
            None
        } else {
            Some(self.pids[self.pids.len() - 1])
        }
    }

    /// Takes the parent read for the current process: a parent is added and
    /// the walk goes on from it; a process without a parent (0), or one whose
    /// entry could not be read, ends the walk.
    pub fn on_parent(&mut self, parent_pid: Option<i32>)
        ensures
            old(self).done ==> *final(self) == *old(self),
            !old(self).done ==> match parent_pid {
                Some(p) => if p > 0 {
                    final(self).pids@ == old(self).pids@.push(p as i64) && !final(self).done
                } else {
                    final(self).pids@ == old(self).pids@ && final(self).done
                },
                None => final(self).pids@ == old(self).pids@ && final(self).done,
            },
    {
        if self.done {
            return;
        }
        match parent_pid {
            Some(p) => if p > 0 {
                self.pids.push(p as i64);
            } else {
                self.done = true;
            },
            None => {
                self.done = true;
            },
        }
    }
}

/// Feeding the chain the parents read for its processes in turn gives the
/// walk of those readings.
pub proof fn lemma_walk_step(start: Option<i64>, readings: Seq<Option<i32>>, parent: Option<i32>)
    ensures
        ({
            let (pids, done) = walk(start, readings);
            let (pids2, done2) = walk(start, readings.push(parent));
            &&& done ==> (pids2, done2) == (pids, done)
            &&& !done ==> match parent {
                Some(p) => if p > 0 {
                    pids2 == pids.push(p as i64) && !done2
                } else {
                    pids2 == pids && done2
                },
                None => pids2 == pids && done2,
            }
        }),
{
    assert(readings.push(parent).drop_last() =~= readings);
}

/// The walk's chain starts at the sender, and each later entry is the
/// parent read for the entry before it; every reading taken while the walk
/// went on was a parent, and the walk ends at the first reading that is no
/// parent.
pub proof fn law_chain_lists_ancestors(start: i64, readings: Seq<Option<i32>>)
    ensures
        ({
            let (pids, done) = walk(Some(start), readings);
            &&& pids.len() >= 1 && pids[0] == start
            &&& pids.len() <= readings.len() + 1
            &&& forall|i: int| 0 <= i < pids.len() - 1 ==> readings[i] == Some(#[trigger] pids[i + 1] as i32)
                && pids[i + 1] > 0
            &&& !done ==> pids.len() == readings.len() + 1
            &&& done ==> pids.len() <= readings.len() && match readings[pids.len() - 1] {
                Some(p) => p <= 0,
                None => true,
            }
        }),
    decreases readings.len(),
{
    if readings.len() > 0 {
        let r = readings.drop_last();
        law_chain_lists_ancestors(start, r);
        lemma_walk_step(Some(start), r, readings.last());
        assert(r.push(readings.last()) =~= readings);
        let (pids, done) = walk(Some(start), r);
        assert forall|i: int| 0 <= i < pids.len() - 1 implies readings[i] == r[i] by {}
    }
}

/// A cached process id of a bus connection, with when it expires, in
/// milliseconds of the clock the caller reads.
pub struct CacheEntry {
    pub pid: Option<u32>,
    pub expires_at: u64,
}

/// Process ids of bus connections, each kept for a time after its last use.
pub struct CacheStorage {
    entries: StrMap<CacheEntry>,
    ttl: u64,
}

impl CacheStorage {
    /// The cached entries by connection name.
    pub closed spec fn entries(&self) -> Map<Seq<char>, CacheEntry> {
        self.entries@
    }

    /// How long, in milliseconds, an entry lives after its last use.
    pub closed spec fn ttl(&self) -> u64 {
        self.ttl
    }

    /// An empty cache whose entries live `ttl` milliseconds.
    pub fn new(ttl: u64) -> (c: Self)
        ensures
            c.entries() == Map::<Seq<char>, CacheEntry>::empty(),
            c.ttl() == ttl,
    {
        CacheStorage { entries: StrMap::new(), ttl }
    }

    /// Drops the entries that expired by `current_time`.
    pub fn remove_expired(&mut self, current_time: u64)
        ensures
            final(self).ttl() == old(self).ttl(),
            final(self).entries() == unexpired(old(self).entries(), current_time),
    {
        let ghost before = self.entries@;
        let mut kept: StrMap<CacheEntry> = StrMap::new();
        proof {
            use_type_invariant(&self.entries);
            self.entries.lemma_pairs();
        }
        let n = self.entries.len();
        let mut i: usize = 0;
        while i < n
            invariant
                i <= n,
                n == self.entries.pairs().len(),
                self.entries@ == before,
                crate::strmap::distinct_keys(self.entries.pairs()),
                forall|k: Seq<char>| #[trigger] before.contains_key(k) <==> crate::strmap::has_entry(
                    self.entries.pairs(),
                    k,
                ),
                forall|j: int|
                    0 <= j < n ==> #[trigger] before[self.entries.pairs()[j].0]
                        == self.entries.pairs()[j].1,
                forall|k: Seq<char>|
                    #[trigger] kept@.contains_key(k) <==> exists|j: int|
                        0 <= j < i && (#[trigger] self.entries.pairs()[j]).0 == k
                            && self.entries.pairs()[j].1.expires_at > current_time,
                forall|k: Seq<char>| #[trigger] kept@.contains_key(k) ==> kept@[k] == before[k],
            decreases n - i,
        {
            let e = self.entries.value_at(i);
            if e.expires_at > current_time {
                let key = self.entries.key_at(i).clone();
                let copy = CacheEntry { pid: e.pid, expires_at: e.expires_at };
                let ghost kept_before = kept@;
                kept.insert(key, copy);
                proof {
                    let p = self.entries.pairs()[i as int];
                    assert(before[p.0] == p.1);
                    assert forall|k: Seq<char>| #[trigger] kept@.contains_key(k) <==> exists|j: int|
                        0 <= j < i + 1 && (#[trigger] self.entries.pairs()[j]).0 == k
                            && self.entries.pairs()[j].1.expires_at > current_time by {
                        if k == p.0 {
                            assert(self.entries.pairs()[i as int].0 == k);
                        }
                        if exists|j: int|
                            0 <= j < i + 1 && (#[trigger] self.entries.pairs()[j]).0 == k
                                && self.entries.pairs()[j].1.expires_at > current_time {
                            let j = choose|j: int|
                                0 <= j < i + 1 && (#[trigger] self.entries.pairs()[j]).0 == k
                                    && self.entries.pairs()[j].1.expires_at > current_time;
                            if j < i {
                                assert(kept_before.contains_key(k));
                            }
                        }
                    }
                }
            } else {
                proof {
                    let p = self.entries.pairs()[i as int];
                    assert forall|k: Seq<char>| #[trigger] kept@.contains_key(k) <==> exists|j: int|
                        0 <= j < i + 1 && (#[trigger] self.entries.pairs()[j]).0 == k
                            && self.entries.pairs()[j].1.expires_at > current_time by {
                        if exists|j: int|
                            0 <= j < i + 1 && (#[trigger] self.entries.pairs()[j]).0 == k
                                && self.entries.pairs()[j].1.expires_at > current_time {
                            let j = choose|j: int|
                                0 <= j < i + 1 && (#[trigger] self.entries.pairs()[j]).0 == k
                                    && self.entries.pairs()[j].1.expires_at > current_time;
                            if j == i {
                                assert(before[p.0] == p.1);
                            }
                        }
                    }
                }
            }
            i = i + 1;
        }
        proof {
            let target = before.restrict(
                before.dom().filter(|k: Seq<char>| before[k].expires_at > current_time),
            );
            assert forall|k: Seq<char>| #[trigger] kept@.contains_key(k) <==> target.contains_key(k) by {
                if before.contains_key(k) && before[k].expires_at > current_time {
                    let j = choose|j: int|
                        0 <= j < n && (#[trigger] self.entries.pairs()[j]).0 == k;
                    assert(before[self.entries.pairs()[j].0] == self.entries.pairs()[j].1);
                }
                if kept@.contains_key(k) {
                    let j = choose|j: int|
                        0 <= j < i && (#[trigger] self.entries.pairs()[j]).0 == k
                            && self.entries.pairs()[j].1.expires_at > current_time;
                    assert(crate::strmap::has_entry(self.entries.pairs(), k));
                    assert(before[self.entries.pairs()[j].0] == self.entries.pairs()[j].1);
                }
            }
            assert(kept@ =~= target);
        }
        self.entries = kept;
    }

    /// The cached process id of `connection`, if cached; a hit keeps the
    /// entry for another `ttl` from `now`.
    pub fn retrieve(&mut self, connection: &str, now: u64) -> (r: Option<Option<u32>>)
        requires
            now + old(self).ttl() <= u64::MAX,
        ensures
            final(self).ttl() == old(self).ttl(),
            match r {
                Some(pid) => old(self).entries().contains_key(connection@) && pid == old(
                    self,
                ).entries()[connection@].pid && final(self).entries() == old(self).entries().insert(
                    connection@,
                    CacheEntry { pid, expires_at: (now + old(self).ttl()) as u64 },
                ),
                None => !old(self).entries().contains_key(connection@) && final(self).entries()
                    == old(self).entries(),
            },
    {
        let pid = match self.entries.get(connection) {
            Some(e) => e.pid,
            None => {
                return None;
            },
        };
        self.entries.insert(connection.to_string(), CacheEntry { pid, expires_at: now + self.ttl });
        Some(pid)
    }

    /// Caches `pid` for `connection` until `ttl` after `now`.
    pub fn store(&mut self, connection: &str, pid: Option<u32>, now: u64)
        requires
            now + old(self).ttl() <= u64::MAX,
        ensures
            final(self).ttl() == old(self).ttl(),
            final(self).entries() == old(self).entries().insert(
                connection@,
                CacheEntry { pid, expires_at: (now + old(self).ttl()) as u64 },
            ),
    {
        self.entries.insert(connection.to_string(), CacheEntry { pid, expires_at: now + self.ttl });
    }

    /// Forgets `connection`.
    pub fn evict(&mut self, connection: &str)
        ensures
            final(self).ttl() == old(self).ttl(),
            final(self).entries() == old(self).entries().remove(connection@),
    {
        self.entries.remove(connection);
    }
}

/// The entries left after expiry at `current_time`, as `remove_expired`
/// leaves them.
pub open spec fn unexpired(entries: Map<Seq<char>, CacheEntry>, current_time: u64) -> Map<Seq<char>, CacheEntry> {
    entries.restrict(entries.dom().filter(|k: Seq<char>| entries[k].expires_at > current_time))
}

/// A call on the process-id cache, with its arguments taken as values.
pub enum CacheCall {
    Store(Seq<char>, Option<u32>, u64),
    Retrieve(Seq<char>, u64),
    RemoveExpired(u64),
    Evict(Seq<char>),
}

/// The entries after `call`, as the method's contract states them, for a
/// cache kept for `ttl`.
pub open spec fn after_call(entries: Map<Seq<char>, CacheEntry>, call: CacheCall, ttl: u64) -> Map<Seq<char>, CacheEntry> {
    match call {
        CacheCall::Store(c, pid, now) => entries.insert(c, CacheEntry { pid, expires_at: (now + ttl) as u64 }),
        CacheCall::Retrieve(c, now) => if entries.contains_key(c) {
            entries.insert(c, CacheEntry { pid: entries[c].pid, expires_at: (now + ttl) as u64 })
        } else {
            entries
        },
        CacheCall::RemoveExpired(t) => unexpired(entries, t),
        CacheCall::Evict(c) => entries.remove(c),
    }
}

/// The entries after `calls`, in order.
pub open spec fn after_calls(entries: Map<Seq<char>, CacheEntry>, calls: Seq<CacheCall>, ttl: u64) -> Map<
    Seq<char>,
    CacheEntry,
>
    decreases calls.len(),
{
    if calls.len() == 0 {
        entries
    } else {
        after_calls(after_call(entries, calls[0], ttl), calls.drop_first(), ttl)
    }
}

/// Whether `calls` leave the entry of `connection`, which expires at
/// `expiry`, in place: each store and retrieve is one the cache accepts
/// (its time plus the time to live fits the clock), none stores or evicts
/// the entry, and each expiry comes before the entry's expiry at that time
/// (a retrieve of it renews it).
pub open spec fn leaves_entry(connection: Seq<char>, expiry: u64, calls: Seq<CacheCall>, ttl: u64) -> bool
    decreases calls.len(),
{
    if calls.len() == 0 {
        true
    } else {
        let rest = calls.drop_first();
        match calls[0] {
            CacheCall::Store(c, _, now) => now + ttl <= u64::MAX && c != connection && leaves_entry(
                connection,
                expiry,
                rest,
                ttl,
            ),
            CacheCall::Evict(c) => c != connection && leaves_entry(connection, expiry, rest, ttl),
            CacheCall::RemoveExpired(t) => t < expiry && leaves_entry(connection, expiry, rest, ttl),
            CacheCall::Retrieve(c, now) => now + ttl <= u64::MAX && if c == connection {
                leaves_entry(connection, (now + ttl) as u64, rest, ttl)
            } else {
                leaves_entry(connection, expiry, rest, ttl)
            },
        }
    }
}

/// A cached process id stays cached through any calls that leave its entry
/// in place, so that a retrieve after them gives it back.
pub proof fn law_cache_keeps_entry(
    entries: Map<Seq<char>, CacheEntry>,
    connection: Seq<char>,
    calls: Seq<CacheCall>,
    ttl: u64,
)
    requires
        entries.contains_key(connection),
        leaves_entry(connection, entries[connection].expires_at, calls, ttl),
    ensures
        after_calls(entries, calls, ttl).contains_key(connection),
        after_calls(entries, calls, ttl)[connection].pid == entries[connection].pid,
    decreases calls.len(),
{
    if calls.len() > 0 {
        let next = after_call(entries, calls[0], ttl);
        if let CacheCall::RemoveExpired(t) = calls[0] {
            assert(entries.dom().filter(|k: Seq<char>| entries[k].expires_at > t).contains(connection));
        }
        law_cache_keeps_entry(next, connection, calls.drop_first(), ttl);
    }
}

/// After storing a process id for a connection, a lookup finds that id; after
/// evicting it, a lookup finds nothing; and it survives expiry at a later
/// time exactly while that time is before its expiry.
pub proof fn law_cache_round_trip(
    entries: Map<Seq<char>, CacheEntry>,
    connection: Seq<char>,
    pid: Option<u32>,
    now: u64,
    ttl: u64,
    later: u64,
)
    requires
        now + ttl <= u64::MAX,
    ensures
        ({
            let stored = entries.insert(
                connection,
                CacheEntry { pid, expires_at: (now + ttl) as u64 },
            );
            &&& stored.contains_key(connection) && stored[connection].pid == pid
            &&& !stored.remove(connection).contains_key(connection)
            &&& unexpired(stored, later).contains_key(connection) <==> later < now + ttl
        }),
{
    let stored = entries.insert(connection, CacheEntry { pid, expires_at: (now + ttl) as u64 });
    assert(stored.dom().filter(|k: Seq<char>| stored[k].expires_at > later).contains(connection)
        <==> later < now + ttl);
}

/// Whether window `w` belongs to a notification from the chain: it is
/// unfocused and its process is in the chain.
pub open spec fn of_chain(pid_chain: Seq<i64>, w: WindowInfo) -> bool {
    !w.inner.is_focused && match w.inner.pid {
        Some(p) => pid_chain.contains(p as i64),
        None => false,
    }
}

/// Whether the window at `i` belongs to a notification from the chain.
pub open spec fn belongs(pid_chain: Seq<i64>, windows: Seq<WindowInfo>, i: int) -> bool {
    of_chain(pid_chain, windows[i])
}

/// Whether `mark` is the mark of a window of `windows` that belongs to the
/// chain, with `urgency`.
pub open spec fn marks_window_of_chain(
    mark: (u64, NotificationUrgency),
    pid_chain: Seq<i64>,
    windows: Seq<WindowInfo>,
    urgency: NotificationUrgency,
) -> bool {
    exists|i: int|
        0 <= i < windows.len() && #[trigger] belongs(pid_chain, windows, i) && mark == (
            windows[i].inner.id,
            urgency,
        )
}

/// A notification marks every unfocused window whose process is in the
/// sender's chain, each with the urgency its hint gives, and no other
/// window; each once, in the order of the windows.
pub proof fn law_notification_marks_every_window_of_its_sender(
    urgency_hint: Option<u8>,
    pid_chain: Seq<i64>,
    windows: Seq<WindowInfo>,
)
    ensures
        forall|i: int|
            0 <= i < windows.len() && #[trigger] belongs(pid_chain, windows, i) ==> matched_windows(
                urgency_hint,
                pid_chain,
                windows,
            ).contains((windows[i].inner.id, urgency_of(urgency_hint))),
        forall|k: int|
            0 <= k < matched_windows(urgency_hint, pid_chain, windows).len() ==> marks_window_of_chain(
                #[trigger] matched_windows(urgency_hint, pid_chain, windows)[k],
                pid_chain,
                windows,
                urgency_of(urgency_hint),
            ),
        matched_windows(urgency_hint, pid_chain, windows).len() == windows.filter(
            |w: WindowInfo| of_chain(pid_chain, w),
        ).len(),
    decreases windows.len(),
{
    if windows.len() > 0 {
        let d = windows.drop_last();
        law_notification_marks_every_window_of_its_sender(urgency_hint, pid_chain, d);
        let m = matched_windows(urgency_hint, pid_chain, windows);
        let md = matched_windows(urgency_hint, pid_chain, d);
        assert forall|i: int| 0 <= i < d.len() implies #[trigger] belongs(pid_chain, windows, i) == belongs(
            pid_chain,
            d,
            i,
        ) by {
            assert(windows[i] == d[i]);
        }
        assert forall|i: int| 0 <= i < windows.len() && #[trigger] belongs(pid_chain, windows, i) implies m.contains(
            (windows[i].inner.id, urgency_of(urgency_hint)),
        ) by {
            if i < d.len() {
                assert(belongs(pid_chain, d, i));
                let k = choose|k: int| 0 <= k < md.len() && md[k] == (d[i].inner.id, urgency_of(urgency_hint));
                assert(m[k] == md[k]);
                assert(windows[i] == d[i]);
            } else {
                assert(m[m.len() - 1] == (windows[i].inner.id, urgency_of(urgency_hint)));
            }
        }
        assert forall|k: int| 0 <= k < m.len() implies marks_window_of_chain(
            #[trigger] m[k],
            pid_chain,
            windows,
            urgency_of(urgency_hint),
        ) by {
            if k < md.len() {
                assert(m[k] == md[k]);
                let i = choose|i: int|
                    0 <= i < d.len() && #[trigger] belongs(pid_chain, d, i) && md[k] == (
                        d[i].inner.id,
                        urgency_of(urgency_hint),
                    );
                assert(windows[i] == d[i]);
                assert(belongs(pid_chain, windows, i));
                assert(0 <= i < windows.len() && belongs(pid_chain, windows, i) && m[k] == (
                    windows[i].inner.id,
                    urgency_of(urgency_hint),
                ));
            } else {
                let i = windows.len() - 1;
                if !belongs(pid_chain, windows, i) {
                    assert(m == md);
                }
                assert(belongs(pid_chain, windows, i));
                assert(m[k] == (windows[i].inner.id, urgency_of(urgency_hint)));
                assert(0 <= i < windows.len() && belongs(pid_chain, windows, i) && m[k] == (
                    windows[i].inner.id,
                    urgency_of(urgency_hint),
                ));
            }
        }
        let f = |w: WindowInfo| of_chain(pid_chain, w);
        assert(windows.filter(f) == if f(windows.last()) {
            d.filter(f).push(windows.last())
        } else {
            d.filter(f)
        }) by {
            reveal(Seq::filter);
            assert(windows.drop_last() == d);
        }
    } else {
        assert(matched_windows(urgency_hint, pid_chain, windows).len() == 0);
        let f = |w: WindowInfo| of_chain(pid_chain, w);
        assert(windows.filter(f).len() == 0) by {
            reveal(Seq::filter);
        }
    }
}

/// The urgency hint 0 means low and 2 critical; any other hint, or none,
/// means normal.
pub proof fn law_urgency_hint(h: u8)
    ensures
        urgency_of(Some(0)) == NotificationUrgency::Low,
        urgency_of(Some(2)) == NotificationUrgency::Critical,
        urgency_of(None) == NotificationUrgency::Normal,
        h != 0 && h != 2 ==> urgency_of(Some(h)) == NotificationUrgency::Normal,
{
}

} // verus!
