//! The debounce scheduler: coalesces a bursty stream of accepted change
//! notifications into single, well-timed command invocations.
//!
//! The scheduler owns the pending-change set and a logical deadline guarded
//! by a generation counter.  Every accepted change resets the countdown:
//! the command only runs once no accepted change has occurred for a full
//! delay interval.  A timer armed for an older generation is stale and its
//! firing is a no-op.
use vstd::prelude::*;

verus! {

/// A single accepted change: the instant it arrived and the path it names.
/// Times are in milliseconds on an abstract monotone clock.
pub ghost struct Touch {
    pub time: int,
    pub path: Seq<char>,
}

/// The mathematical model of the scheduler's state.
#[verifier::ext_equal]
pub ghost struct SchedulerModel {
    /// The distinct paths accepted since the last flush.
    pub pending: Set<Seq<char>>,
    /// Bumped on every accepted change; a firing for an older generation is stale.
    pub generation: int,
    /// The armed deadline, if a timer is armed.
    pub deadline: Option<int>,
    /// The quiescence interval in milliseconds.
    pub delay: int,
}

/// The idle model: nothing pending, no timer armed.
pub open spec fn model_idle(delay: int) -> SchedulerModel {
    SchedulerModel { pending: Set::empty(), generation: 0, deadline: None, delay: delay }
}

/// How one accepted change transforms the model: the path joins the pending
/// set, the countdown restarts at `now + delay`, and the generation advances
/// (which supersedes any previously armed timer).
pub open spec fn model_touch(m: SchedulerModel, path: Seq<char>, now: int) -> SchedulerModel {
    SchedulerModel {
        pending: m.pending.insert(path),
        generation: m.generation + 1,
        deadline: Some(now + m.delay),
        delay: m.delay,
    }
}

/// The model after a whole sequence of accepted changes.
pub open spec fn apply_touches(m: SchedulerModel, ts: Seq<Touch>) -> SchedulerModel
    decreases ts.len(),
{
    if ts.len() == 0 {
        m
    } else {
        model_touch(apply_touches(m, ts.drop_last()), ts.last().path, ts.last().time)
    }
}

/// The set of paths named by a sequence of touches.
pub open spec fn touched_paths(ts: Seq<Touch>) -> Set<Seq<char>> {
    Set::new(|p: Seq<char>| exists|i: int| 0 <= i < ts.len() && ts[i].path == p)
}

/// The set of paths held by a vector of path strings.
pub open spec fn path_set(v: Seq<String>) -> Set<Seq<char>> {
    Set::new(|p: Seq<char>| exists|i: int| 0 <= i < v.len() && v[i]@ == p)
}

/// The arrivals at positions `i` and `i + 1` are in order and separated by
/// less than `delay`: the second arrives while the first's timer is armed.
pub open spec fn gap_small(ts: Seq<Touch>, i: int, delay: int) -> bool {
    ts[i].time <= ts[i + 1].time && ts[i + 1].time - ts[i].time < delay
}

/// How a whole sequence of accepted changes acts on any starting model: the
/// touched paths join the pending set, the generation advances once per
/// touch, and the deadline ends at (last arrival + delay).
pub proof fn lemma_apply_touches(m0: SchedulerModel, ts: Seq<Touch>)
    ensures
        apply_touches(m0, ts).delay == m0.delay,
        apply_touches(m0, ts).generation == m0.generation + ts.len(),
        apply_touches(m0, ts).pending =~= m0.pending.union(touched_paths(ts)),
        ts.len() > 0 ==> apply_touches(m0, ts).deadline == Some(ts.last().time + m0.delay),
        ts.len() == 0 ==> apply_touches(m0, ts).deadline == m0.deadline,
    decreases ts.len(),
{
    if ts.len() == 0 {
        assert(apply_touches(m0, ts).pending =~= m0.pending.union(touched_paths(ts)));
    } else {
        let dl = ts.drop_last();
        let lp = ts.last().path;
        lemma_apply_touches(m0, dl);
        assert forall|p: Seq<char>| apply_touches(m0, ts).pending.contains(p) implies m0
            .pending.union(touched_paths(ts)).contains(p) by {
            if !m0.pending.contains(p) && p != lp {
                let k = choose|k: int| 0 <= k < dl.len() && dl[k].path == p;
                assert(ts[k].path == p);
            }
        };
        assert forall|p: Seq<char>| m0.pending.union(touched_paths(ts)).contains(p) implies
            apply_touches(m0, ts).pending.contains(p) by {
            if !m0.pending.contains(p) {
                let k = choose|k: int| 0 <= k < ts.len() && ts[k].path == p;
                if k < ts.len() - 1 {
                    assert(dl[k].path == p);
                    assert(touched_paths(dl).contains(p));
                } else {
                    assert(p == lp);
                }
            }
        };
        assert(apply_touches(m0, ts).pending =~= m0.pending.union(touched_paths(ts)));
    }
}

/// Coalescing: starting idle, a burst of accepted changes whose inter-arrival
/// gaps are all smaller than the delay leaves a pending set that is exactly
/// the union of the touched paths, with the deadline exactly (last arrival +
/// delay) — so the burst's firing comes no earlier than a full delay after
/// its last change.  Moreover every timer armed before the burst's last touch
/// is superseded strictly before its own deadline, so only the final timer
/// can fire: the burst yields exactly one invocation.
pub proof fn lemma_coalescing(delay: int, ts: Seq<Touch>)
    requires
        delay > 0,
        ts.len() > 0,
        forall|i: int| 0 <= i < ts.len() - 1 ==> #[trigger] gap_small(ts, i, delay),
    ensures
        apply_touches(model_idle(delay), ts).pending =~= touched_paths(ts),
        apply_touches(model_idle(delay), ts).deadline == Some(ts.last().time + delay),
        apply_touches(model_idle(delay), ts).generation == ts.len(),
        forall|i: int|
            0 <= i < ts.len() - 1 ==> ts[i + 1].time < apply_touches(
                model_idle(delay),
                #[trigger] ts.take(i + 1),
            ).deadline.unwrap(),
{
    lemma_apply_touches(model_idle(delay), ts);
    assert(apply_touches(model_idle(delay), ts).pending =~= touched_paths(ts));
    assert forall|i: int| 0 <= i < ts.len() - 1 implies ts[i + 1].time < apply_touches(
        model_idle(delay),
        #[trigger] ts.take(i + 1),
    ).deadline.unwrap() by {
        lemma_apply_touches(model_idle(delay), ts.take(i + 1));
        assert(ts.take(i + 1).last() == ts[i]);
        assert(gap_small(ts, i, delay));
    };
}

/// Reset: a touch arriving while a timer is armed moves the deadline to
/// (arrival + delay): the next firing is never earlier than the previously
/// armed deadline would have been, and strictly later whenever the touch
/// arrives strictly after the one that armed the timer.
pub proof fn lemma_reset(m: SchedulerModel, path: Seq<char>, now: int)
    requires
        m.deadline is Some,
        now + m.delay >= m.deadline.unwrap(),
    ensures
        model_touch(m, path, now).deadline == Some(now + m.delay),
        model_touch(m, path, now).deadline.unwrap() >= m.deadline.unwrap(),
        now + m.delay > m.deadline.unwrap() ==> model_touch(m, path, now).deadline.unwrap()
            > m.deadline.unwrap(),
{
}

/// Idempotent dedup: touching one and the same path any number of times
/// within a burst leaves a pending set holding exactly that one path.
pub proof fn lemma_idempotent_dedup(delay: int, ts: Seq<Touch>, p: Seq<char>)
    requires
        ts.len() > 0,
        forall|i: int| 0 <= i < ts.len() ==> #[trigger] ts[i].path == p,
    ensures
        apply_touches(model_idle(delay), ts).pending =~= Set::<Seq<char>>::empty().insert(p),
{
    lemma_apply_touches(model_idle(delay), ts);
    assert(ts[0].path == p);
    assert forall|q: Seq<char>| apply_touches(model_idle(delay), ts).pending.contains(q) implies
        Set::<Seq<char>>::empty().insert(p).contains(q) by {
        if touched_paths(ts).contains(q) {
            let k = choose|k: int| 0 <= k < ts.len() && ts[k].path == q;
            assert(ts[k].path == p);
        }
    };
    assert(apply_touches(model_idle(delay), ts).pending =~= Set::<Seq<char>>::empty().insert(p));
}

/// The debounce scheduler.  `touch` records an accepted change and restarts
/// the countdown; `fire` is what a timer firing runs: it snapshots and clears
/// the pending set, unless the firing is stale or the set is empty.
pub struct DebounceScheduler {
    pub delay_ms: u64,
    pub pending: Vec<String>,
    pub generation: u64,
    pub deadline: Option<u64>,
}

impl DebounceScheduler {
    /// Well-formed: the pending vector holds no duplicate paths, and a timer
    /// is armed exactly when something is pending.
    pub open spec fn wf(&self) -> bool {
        &&& forall|i: int, j: int|
            0 <= i < j < self.pending@.len() ==> self.pending@[i]@ != self.pending@[j]@
        &&& (self.pending@.len() == 0 <==> self.deadline is None)
    }

    /// The scheduler's state as a mathematical model.
    pub open spec fn model(&self) -> SchedulerModel {
        SchedulerModel {
            pending: path_set(self.pending@),
            generation: self.generation as int,
            deadline: match self.deadline {
                Some(d) => Some(d as int),
                None => None,
            },
            delay: self.delay_ms as int,
        }
    }

    pub open spec fn spec_delay_ms(&self) -> u64 {
        self.delay_ms
    }

    pub open spec fn spec_generation(&self) -> u64 {
        self.generation
    }

    /// A fresh, idle scheduler with the given quiescence interval.
    pub fn new(delay_ms: u64) -> (s: Self)
        ensures
            s.wf(),
            s.model() == model_idle(delay_ms as int),
            s.spec_delay_ms() == delay_ms,
    {
        let s = DebounceScheduler { delay_ms, pending: Vec::new(), generation: 0, deadline: None };
        proof {
            assert(s.model().pending =~= model_idle(delay_ms as int).pending);
            assert(s.model() =~= model_idle(delay_ms as int));
        }
        s
    }

    /// Record an accepted change at instant `now`: insert the path into the
    /// pending set (idempotent on duplicates), restart the countdown so the
    /// deadline becomes `now + delay`, and advance the generation so any
    /// previously armed timer is superseded.  Returns the new deadline; the
    /// caller arms a timer for it carrying the new generation.
    pub fn touch(&mut self, path: String, now: u64) -> (deadline: u64)
        requires
            old(self).wf(),
            old(self).generation < u64::MAX,
            now + old(self).delay_ms <= u64::MAX,
        ensures
            final(self).wf(),
            final(self).model() == model_touch(old(self).model(), path@, now as int),
            deadline == now + old(self).spec_delay_ms(),
            final(self).spec_delay_ms() == old(self).spec_delay_ms(),
            final(self).spec_generation() == old(self).spec_generation() + 1,
            old(self).model().pending.contains(path@) ==> final(self).pending@.len() == old(
                self,
            ).pending@.len(),
            !old(self).model().pending.contains(path@) ==> final(self).pending@.len() == old(
                self,
            ).pending@.len() + 1,
    {
        let ghost m0 = self.model();
        let ghost pth = path@;
        let mut present = false;
        let mut i: usize = 0;
        while i < self.pending.len()
            invariant
                0 <= i <= self.pending@.len(),
                present <==> exists|k: int| 0 <= k < i && self.pending@[k]@ == path@,
                *self == *old(self),
            decreases self.pending@.len() - i,
        {
            if self.pending[i].eq(&path) {
                present = true;
            }
            i += 1;
        }
        proof {
            assert(present <==> m0.pending.contains(path@));
        }
        if !present {
            let ghost n = self.pending@.len();
            self.pending.push(path);
            proof {
                assert forall|p: Seq<char>| path_set(self.pending@).contains(p) implies m0
                    .pending.insert(pth).contains(p) by {
                    let k = choose|k: int|
                        0 <= k < self.pending@.len() && self.pending@[k]@ == p;
                    if k < n {
                        assert(old(self).pending@[k]@ == p);
                    }
                };
                assert forall|p: Seq<char>| m0.pending.insert(pth).contains(p) implies path_set(
                    self.pending@,
                ).contains(p) by {
                    if p == pth {
                        assert(self.pending@[n as int]@ == p);
                    } else {
                        let k = choose|k: int|
                            0 <= k < old(self).pending@.len() && old(self).pending@[k]@ == p;
                        assert(self.pending@[k]@ == p);
                    }
                };
                assert(path_set(self.pending@) =~= m0.pending.insert(pth));
            }
        } else {
            proof {
                assert(m0.pending.contains(pth));
                assert(path_set(self.pending@) =~= m0.pending.insert(pth));
            }
        }
        let deadline = now + self.delay_ms;
        self.deadline = Some(deadline);
        self.generation = self.generation + 1;
        proof {
            assert(self.model() =~= model_touch(m0, pth, now as int));
        }
        deadline
    }

    /// What a timer firing runs.  `generation` is the generation the timer was
    /// armed with.  A stale firing (superseded by a later touch) changes
    /// nothing and yields no snapshot.  A current firing atomically swaps the
    /// pending set for an empty one; if the swapped-out set is empty the
    /// firing is a no-op (the defensive empty-fire guard), otherwise the
    /// snapshot — exactly the pending paths, free of duplicates — is handed
    /// back for dispatch.
    pub fn fire(&mut self, generation: u64) -> (r: Option<Vec<String>>)
        requires
            old(self).wf(),
        ensures
            final(self).wf(),
            final(self).spec_delay_ms() == old(self).spec_delay_ms(),
            final(self).spec_generation() == old(self).spec_generation(),
            generation != old(self).spec_generation() ==> r is None && *final(self) == *old(self),
            generation == old(self).spec_generation() && old(self).pending@.len() == 0 ==> r
                is None && final(self).pending@.len() == 0 && final(self).deadline is None,
            generation == old(self).spec_generation() && old(self).pending@.len() > 0 ==> {
                &&& r is Some
                &&& path_set(r.unwrap()@) == old(self).model().pending
                &&& r.unwrap()@.len() == old(self).pending@.len()
                &&& forall|i: int, j: int|
                    0 <= i < j < r.unwrap()@.len() ==> r.unwrap()@[i]@ != r.unwrap()@[j]@
                &&& final(self).model().pending == Set::<Seq<char>>::empty()
                &&& final(self).deadline is None
            },
    {
        if generation != self.generation {
            return None;
        }
        self.deadline = None;
        if self.pending.len() == 0 {
            return None;
        }
        let mut out: Vec<String> = Vec::new();
        core::mem::swap(&mut out, &mut self.pending);
        proof {
            assert(path_set(out@) =~= old(self).model().pending);
            assert(self.model().pending =~= Set::<Seq<char>>::empty());
        }
        Some(out)
    }

    /// The number of distinct paths currently pending.
    pub fn pending_len(&self) -> (n: usize)
        ensures
            n == self.pending@.len(),
    {
        self.pending.len()
    }

    /// The currently armed deadline, if a timer is armed.
    pub fn current_deadline(&self) -> (d: Option<u64>)
        ensures
            d == self.deadline,
    {
        self.deadline
    }

    /// The current generation counter.
    pub fn current_generation(&self) -> (g: u64)
        ensures
            g == self.spec_generation(),
    {
        self.generation
    }
}

} // verus!
