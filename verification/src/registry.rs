//! The process registry: at most one live session per device identifier,
//! modelled as a map from device identifier to an opaque process handle. The
//! supervisor's decisions (what a liveness poll does, how a stop terminates
//! the child) are pure functions beside it.
use vstd::prelude::*;
use vstd::map::*;
use crate::text::str_eq;

verus! {

/// One tracked session: the device identifier and the handle that the
/// runtime layer uses to reach the child process.
pub struct SessionEntry {
    pub device: String,
    pub handle: u64,
}

/// Some entry carries the key `k`.
pub open spec fn seq_has_key(s: Seq<SessionEntry>, k: Seq<char>) -> bool {
    exists|i: int| 0 <= i < s.len() && #[trigger] s[i].device@ == k
}

pub open spec fn seq_index_of(s: Seq<SessionEntry>, k: Seq<char>) -> int {
    choose|i: int| 0 <= i < s.len() && #[trigger] s[i].device@ == k
}

/// No two entries share a device identifier.
pub open spec fn wf_seq(s: Seq<SessionEntry>) -> bool {
    forall|i: int, j: int|
        0 <= i < j < s.len() ==> #[trigger] s[i].device@ != #[trigger] s[j].device@
}

/// The registry as a map from device identifier to handle.
pub open spec fn map_of(s: Seq<SessionEntry>) -> Map<Seq<char>, u64> {
    Map::new(|k: Seq<char>| seq_has_key(s, k), |k: Seq<char>| s[seq_index_of(s, k)].handle)
}

/// In a well-formed sequence the key decides the entry.
pub proof fn lemma_wf_unique(s: Seq<SessionEntry>, i: int, j: int)
    requires
        wf_seq(s),
        0 <= i < s.len(),
        0 <= j < s.len(),
        s[i].device@ == s[j].device@,
    ensures
        i == j,
{
}

proof fn lemma_lookup(s: Seq<SessionEntry>, i: int)
    requires
        wf_seq(s),
        0 <= i < s.len(),
    ensures
        map_of(s).dom().contains(s[i].device@),
        map_of(s)[s[i].device@] == s[i].handle,
{
    let k = s[i].device@;
    assert(seq_has_key(s, k));
    let j = seq_index_of(s, k);
    assert(0 <= j < s.len() && s[j].device@ == k);
    lemma_wf_unique(s, i, j);
}

proof fn lemma_map_of_remove(s: Seq<SessionEntry>, i: int)
    requires
        wf_seq(s),
        0 <= i < s.len(),
    ensures
        wf_seq(s.remove(i)),
        map_of(s.remove(i)) == map_of(s).remove(s[i].device@),
{
    let t = s.remove(i);
    let k0 = s[i].device@;
    assert forall|p: int, q: int| 0 <= p < q < t.len() implies #[trigger] t[p].device@
        != #[trigger] t[q].device@ by {
        let sp = if p < i {
            p
        } else {
            p + 1
        };
        let sq = if q < i {
            q
        } else {
            q + 1
        };
        assert(t[p] == s[sp] && t[q] == s[sq]);
    }
    assert forall|k: Seq<char>| #[trigger] seq_has_key(t, k) implies seq_has_key(s, k) && k != k0 by {
        let p = choose|p: int| 0 <= p < t.len() && #[trigger] t[p].device@ == k;
        let sp = if p < i {
            p
        } else {
            p + 1
        };
        assert(t[p] == s[sp]);
        assert(s[sp].device@ == k);
        lemma_wf_unique(s, sp, sp);
        if k == k0 {
            lemma_wf_unique(s, sp, i);
        }
    }
    assert forall|k: Seq<char>| seq_has_key(s, k) && k != k0 implies #[trigger] seq_has_key(
        t,
        k,
    ) by {
        let p = choose|p: int| 0 <= p < s.len() && #[trigger] s[p].device@ == k;
        lemma_wf_unique(s, p, p);
        if p == i {
            assert(k == k0);
        }
        let tp = if p < i {
            p
        } else {
            p - 1
        };
        assert(t[tp] == s[p]);
    }
    assert forall|k: Seq<char>| #[trigger] seq_has_key(t, k) implies map_of(t)[k] == map_of(s)[k] by {
        let p = seq_index_of(t, k);
        assert(0 <= p < t.len() && t[p].device@ == k);
        let sp = if p < i {
            p
        } else {
            p + 1
        };
        assert(t[p] == s[sp]);
        lemma_lookup(t, p);
        lemma_lookup(s, sp);
    }
    assert(map_of(t) =~= map_of(s).remove(k0));
}

proof fn lemma_map_of_push(s: Seq<SessionEntry>, e: SessionEntry)
    requires
        wf_seq(s),
        !seq_has_key(s, e.device@),
    ensures
        wf_seq(s.push(e)),
        map_of(s.push(e)) == map_of(s).insert(e.device@, e.handle),
{
    let t = s.push(e);
    assert forall|p: int, q: int| 0 <= p < q < t.len() implies #[trigger] t[p].device@
        != #[trigger] t[q].device@ by {
        if q == s.len() {
            assert(t[p] == s[p]);
            assert(t[q] == e);
        } else {
            assert(t[p] == s[p] && t[q] == s[q]);
        }
    }
    assert forall|k: Seq<char>| #[trigger] seq_has_key(t, k) implies k == e.device@ || seq_has_key(
        s,
        k,
    ) by {
        let p = choose|p: int| 0 <= p < t.len() && #[trigger] t[p].device@ == k;
        if p < s.len() {
            assert(t[p] == s[p]);
        } else {
            assert(t[p] == e);
        }
    }
    assert(t[s.len() as int] == e);
    assert(seq_has_key(t, e.device@));
    assert forall|k: Seq<char>| seq_has_key(s, k) implies #[trigger] seq_has_key(t, k) by {
        let p = choose|p: int| 0 <= p < s.len() && #[trigger] s[p].device@ == k;
        assert(t[p] == s[p]);
    }
    assert forall|k: Seq<char>| #[trigger] seq_has_key(t, k) implies map_of(t)[k] == map_of(
        s,
    ).insert(e.device@, e.handle)[k] by {
        let p = seq_index_of(t, k);
        assert(0 <= p < t.len() && t[p].device@ == k);
        lemma_lookup(t, p);
        if k == e.device@ {
            lemma_wf_unique(t, p, s.len() as int);
        } else {
            assert(p < s.len());
            assert(t[p] == s[p]);
            lemma_lookup(s, p);
        }
    }
    assert(map_of(t) =~= map_of(s).insert(e.device@, e.handle));
}

/// The registry object itself. The runtime layer owns one and serializes
/// access to it; every transition below is a short critical section.
pub struct SessionRegistry {
    entries: Vec<SessionEntry>,
}

impl SessionRegistry {
    /// No two entries name the same device.
    pub closed spec fn wf(&self) -> bool {
        wf_seq(self.entries@)
    }

    /// How many sessions are tracked.
    pub closed spec fn count(&self) -> nat {
        self.entries@.len()
    }

    pub fn new() -> (r: Self)
        ensures
            r.wf(),
            r@ == Map::<Seq<char>, u64>::empty(),
            r.count() == 0,
    {
        let r = SessionRegistry { entries: Vec::new() };
        proof {
            assert forall|k: Seq<char>| !seq_has_key(r.entries@, k) by {}
            assert(map_of(r.entries@) =~= Map::<Seq<char>, u64>::empty());
        }
        r
    }

    /// Removes and hands back the entry for `device`, a no-op success when
    /// none is present: stopping an absent device has no side effects.
    pub fn stop(&mut self, device: &str) -> (prior: Option<u64>)
        requires
            old(self).wf(),
        ensures
            final(self).wf(),
            final(self)@ == old(self)@.remove(device@),
            prior == if old(self)@.dom().contains(device@) {
                Some(old(self)@[device@])
            } else {
                None::<u64>
            },
            !old(self)@.dom().contains(device@) ==> *final(self) == *old(self),
            final(self).count() == old(self).count() - (if old(self)@.dom().contains(device@) {
                1int
            } else {
                0int
            }),
    {
        let n = self.entries.len();
        let mut i: usize = 0;
        while i < n
            invariant
                *self == *old(self),
                n == self.entries@.len(),
                i <= n,
                forall|j: int| 0 <= j < i ==> #[trigger] self.entries@[j].device@ != device@,
                self.wf(),
            decreases n - i,
        {
            if str_eq(self.entries[i].device.as_str(), device) {
                proof {
                    lemma_lookup(self.entries@, i as int);
                    lemma_map_of_remove(self.entries@, i as int);
                }
                let e = self.entries.remove(i);
                return Some(e.handle);
            }
            i += 1;
        }
        proof {
            if seq_has_key(self.entries@, device@) {
                let p = choose|p: int|
                    0 <= p < self.entries@.len() && #[trigger] self.entries@[p].device@ == device@;
                assert(self.entries@[p].device@ != device@);
            }
            assert(map_of(self.entries@) =~= map_of(self.entries@).remove(device@));
        }
        None
    }

    /// Tracks a freshly spawned session, first evicting any prior entry for
    /// the same device so that exactly one remains; a prior handle is handed
    /// back for the runtime layer to terminate.
    pub fn start(&mut self, device: &str, handle: u64) -> (prior: Option<u64>)
        requires
            old(self).wf(),
        ensures
            final(self).wf(),
            final(self)@ == old(self)@.insert(device@, handle),
            final(self)@.dom().contains(device@),
            prior == if old(self)@.dom().contains(device@) {
                Some(old(self)@[device@])
            } else {
                None::<u64>
            },
            final(self).count() == old(self).count() + (if old(self)@.dom().contains(device@) {
                0int
            } else {
                1int
            }),
    {
        let prior = self.stop(device);
        let e = SessionEntry { device: device.to_owned(), handle };
        proof {
            if seq_has_key(self.entries@, device@) {
                let p = seq_index_of(self.entries@, device@);
                lemma_lookup(self.entries@, p);
            }
            lemma_map_of_push(self.entries@, e);
        }
        self.entries.push(e);
        proof {
            assert(map_of(self.entries@) =~= old(self)@.insert(device@, handle));
        }
        prior
    }

    /// The tracked handle for a device, when one is present.
    pub fn handle_of(&self, device: &str) -> (r: Option<u64>)
        requires
            self.wf(),
        ensures
            r == if self@.dom().contains(device@) {
                Some(self@[device@])
            } else {
                None::<u64>
            },
    {
        let n = self.entries.len();
        let mut i: usize = 0;
        while i < n
            invariant
                n == self.entries@.len(),
                i <= n,
                forall|j: int| 0 <= j < i ==> #[trigger] self.entries@[j].device@ != device@,
                self.wf(),
            decreases n - i,
        {
            if str_eq(self.entries[i].device.as_str(), device) {
                proof {
                    lemma_lookup(self.entries@, i as int);
                }
                return Some(self.entries[i].handle);
            }
            i += 1;
        }
        proof {
            if seq_has_key(self.entries@, device@) {
                let p = choose|p: int|
                    0 <= p < self.entries@.len() && #[trigger] self.entries@[p].device@ == device@;
                assert(self.entries@[p].device@ != device@);
            }
        }
        None
    }

    pub fn is_running(&self, device: &str) -> (r: bool)
        requires
            self.wf(),
        ensures
            r == self@.dom().contains(device@),
    {
        self.handle_of(device).is_some()
    }

    pub fn active_count(&self) -> (n: usize)
        ensures
            n == self.count(),
    {
        self.entries.len()
    }
}

impl View for SessionRegistry {
    type V = Map<Seq<char>, u64>;

    closed spec fn view(&self) -> Map<Seq<char>, u64> {
        map_of(self.entries@)
    }
}

/// Registry mutual exclusion: starting a session for a device twice in
/// sequence leaves the registry exactly as the second start alone would, so
/// at most one entry for the device can ever result.
pub proof fn lemma_start_exclusive(m: Map<Seq<char>, u64>, d: Seq<char>, h1: u64, h2: u64)
    ensures
        m.insert(d, h1).insert(d, h2) == m.insert(d, h2),
{
    assert(m.insert(d, h1).insert(d, h2) =~= m.insert(d, h2));
}

/// Registry idempotence: stopping a device that is not tracked changes
/// nothing, and stopping the same device twice equals stopping it once.
pub proof fn lemma_stop_idempotent(m: Map<Seq<char>, u64>, d: Seq<char>)
    ensures
        !m.dom().contains(d) ==> m.remove(d) == m,
        m.remove(d).remove(d) == m.remove(d),
{
    if !m.dom().contains(d) {
        assert(m.remove(d) =~= m);
    }
    assert(m.remove(d).remove(d) =~= m.remove(d));
}

/// What the liveness check found for one tracked session.
pub enum PollOutcome {
    /// The child has exited with some status.
    Exited,
    /// The child is still running.
    Running,
    /// The liveness check itself failed.
    CheckFailed,
}

/// What the supervision task does next.
pub enum PollAction {
    /// Remove the entry and emit the terminal stopped status.
    RemoveAndNotify,
    /// Sleep and poll again.
    KeepWaiting,
    /// The entry is already gone: emit stopped defensively and end.
    NotifyOnly,
}

/// The supervision rule: a missing entry ends the task with a defensive
/// notification; an observed exit or a failed check removes and notifies
/// exactly once; otherwise the task keeps waiting.
pub open spec fn spec_poll_action(present: bool, outcome: PollOutcome) -> PollAction {
    if !present {
        PollAction::NotifyOnly
    } else {
        match outcome {
            PollOutcome::Exited => PollAction::RemoveAndNotify,
            PollOutcome::CheckFailed => PollAction::RemoveAndNotify,
            PollOutcome::Running => PollAction::KeepWaiting,
        }
    }
}

pub fn poll_action(present: bool, outcome: PollOutcome) -> (r: PollAction)
    ensures
        r == spec_poll_action(present, outcome),
{
    if !present {
        PollAction::NotifyOnly
    } else {
        match outcome {
            PollOutcome::Exited => PollAction::RemoveAndNotify,
            PollOutcome::CheckFailed => PollAction::RemoveAndNotify,
            PollOutcome::Running => PollAction::KeepWaiting,
        }
    }
}

/// The host platform, detected once by the runtime layer.
pub enum HostOs {
    Windows,
    Linux,
    MacOs,
    Other,
}

/// How a stop request terminates the child after the entry is evicted.
pub enum StopPlan {
    /// Terminate by process id through the task manager, then a short grace
    /// sleep (the Windows path).
    TaskKill(u32),
    /// Terminate by process id with a signal, then a short grace sleep.
    Signal(u32),
    /// No process id could be obtained: kill the handle forcefully at once.
    ForceKill,
}

pub open spec fn spec_stop_plan(host: HostOs, pid: Option<u32>) -> StopPlan {
    match pid {
        Some(p) => match host {
            HostOs::Windows => StopPlan::TaskKill(p),
            _ => StopPlan::Signal(p),
        },
        None => StopPlan::ForceKill,
    }
}

pub fn stop_plan(host: HostOs, pid: Option<u32>) -> (r: StopPlan)
    ensures
        r == spec_stop_plan(host, pid),
{
    match pid {
        Some(p) => match host {
            HostOs::Windows => StopPlan::TaskKill(p),
            _ => StopPlan::Signal(p),
        },
        None => StopPlan::ForceKill,
    }
}

} // verus!
