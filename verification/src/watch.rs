//! The watch loop's decision core: what to do with each raw notification,
//! and what a timer firing dispatches.
//!
//! The surrounding program pulls raw notifications from the watch
//! primitive, hands them here as plain values, performs the returned
//! action (arm a timer, spawn the planned invocation, exit), and hands
//! timer firings back to `on_timer`.  All decisions are made here.
//!
//! Command executions never overlap: the one timer-firing thread runs the
//! dispatched invocation synchronously and blocks until the child exits,
//! so a second firing cannot begin while one is in flight.  That guarantee
//! lives in how the program drives this core, not in the core itself.
use crate::args::Args;
use crate::args::ArgsModel;
use crate::args::planned_argv;
use crate::args::planned_program;
use crate::dispatcher::Invocation;
use crate::dispatcher::all_under_root;
use crate::dispatcher::relativized;
use crate::dispatcher::seq_set;
use crate::dispatcher::strip_prefix_spec;
use crate::dispatcher::views_of;
use crate::filter::filter_accepts;
use crate::scheduler::DebounceScheduler;
use crate::scheduler::model_touch;
use crate::scheduler::path_set;
use vstd::prelude::*;

verus! {

/// The operation a raw notification reports.  Permission changes and
/// rescans are house-keeping: they never reach the scheduler.
#[derive(Clone, Copy, PartialEq, Eq, Structural, Debug)]
pub enum RawKind {
    Create,
    Modify,
    Remove,
    Chmod,
    Rescan,
    Other,
}

/// A house-keeping operation, discarded without touching the scheduler.
pub open spec fn housekeeping(k: RawKind) -> bool {
    k == RawKind::Chmod || k == RawKind::Rescan
}

/// What the watch loop receives, normalized to plain values: a change
/// notification (whose path is `None` when the primitive reported none or
/// one not representable as UTF-8), an error delivered by the watch
/// primitive, or a failure of the notification channel itself.
pub enum WatchInput {
    Change { kind: RawKind, path: Option<String> },
    WatchError,
    ChannelError,
}

/// What the surrounding program must do with a notification: nothing;
/// cancel any armed timer and arm one for `deadline` carrying `generation`;
/// or terminate the process with `code`.
#[derive(Clone, Copy, PartialEq, Eq, Structural, Debug)]
pub enum WatchStep {
    Ignore,
    Arm { deadline: u64, generation: u64 },
    Exit { code: i32 },
}

/// What a timer firing dispatches: nothing (a stale firing or an empty
/// pending set); a planned invocation to spawn and wait for; or a pending
/// path found outside the watched root, an unrecoverable watcher/root
/// mismatch.
pub enum FireOutcome {
    Nothing,
    Run(Invocation),
    PathOutsideRoot(String),
}

/// The path a notification hands to the scheduler: present exactly when the
/// notification is a change with a representable path, of a kind that is
/// not house-keeping, that the filter accepts.
pub open spec fn accepted_path(m: ArgsModel, input: WatchInput) -> Option<Seq<char>> {
    match input {
        WatchInput::Change { kind, path } => {
            if housekeeping(kind) {
                None
            } else {
                match path {
                    None => None,
                    Some(p) => {
                        if filter_accepts(m.filter, p@) {
                            Some(p@)
                        } else {
                            None
                        }
                    },
                }
            }
        },
        _ => None,
    }
}

/// The invocation planned for some duplicate-free snapshot vector holding
/// exactly the pending paths, relativized first when so configured.
pub open spec fn run_matches_snapshot(m: ArgsModel, pend: Set<Seq<char>>, inv: Invocation) -> bool {
    exists|v: Seq<Seq<char>>|
        {
            &&& #[trigger] seq_set(v) == pend
            &&& v.len() > 0
            &&& inv.program@ == planned_program(m)
            &&& if m.relativize_paths {
                all_under_root(m.path, v) && views_of(inv.argv@) == planned_argv(
                    m,
                    relativized(m.path, v),
                )
            } else {
                views_of(inv.argv@) == planned_argv(m, v)
            }
        }
}

/// The verified core of the watch loop: the configuration and the debounce
/// scheduler.  The surrounding program owns the threads, the timers and the
/// process spawning; every decision is made here.
pub struct Watch {
    pub args: Args,
    pub scheduler: DebounceScheduler,
}

impl Watch {
    /// Well-formed: a usable configuration not asking for help, and a
    /// scheduler whose delay is the configured seconds in milliseconds.
    pub open spec fn wf(&self) -> bool {
        &&& self.args.wf()
        &&& !self.args.help
        &&& self.scheduler.wf()
        &&& self.scheduler.delay_ms == self.args.delay_seconds * 1000
    }

    /// A watch over the given configuration, idle: nothing pending, no
    /// timer armed.
    pub fn new(args: Args) -> (w: Watch)
        requires
            args.wf(),
            !args.help,
            args.delay_seconds <= u64::MAX / 1000,
        ensures
            w.wf(),
            w.args == args,
            w.scheduler.pending@.len() == 0,
            w.scheduler.generation == 0,
            w.scheduler.deadline is None,
    {
        let delay_ms = args.delay_seconds * 1000;
        let scheduler = DebounceScheduler::new(delay_ms);
        Watch { args, scheduler }
    }

    /// Decide what one raw notification means at instant `now`.  A change
    /// of a house-keeping kind, without a representable path, or whose path
    /// the filter drops is ignored.  An accepted change touches the
    /// scheduler: the caller must arm a timer for the returned deadline
    /// carrying the returned generation.  A watch-primitive error exits
    /// with code 10 and a channel failure with code 11 when exiting on
    /// errors is configured, and is otherwise logged and ignored.
    pub fn on_notification(&mut self, input: WatchInput, now: u64) -> (step: WatchStep)
        requires
            old(self).wf(),
            old(self).scheduler.generation < u64::MAX,
            now + old(self).scheduler.delay_ms <= u64::MAX,
        ensures
            final(self).wf(),
            final(self).args == old(self).args,
            match accepted_path(old(self).args.model(), input) {
                Some(p) => {
                    &&& final(self).scheduler.model() == model_touch(
                        old(self).scheduler.model(),
                        p,
                        now as int,
                    )
                    &&& step == (WatchStep::Arm {
                        deadline: (now + old(self).scheduler.delay_ms) as u64,
                        generation: (old(self).scheduler.generation + 1) as u64,
                    })
                },
                None => {
                    &&& final(self).scheduler == old(self).scheduler
                    &&& step == (match input {
                        WatchInput::WatchError => {
                            if old(self).args.exit_on_error {
                                WatchStep::Exit { code: 10 }
                            } else {
                                WatchStep::Ignore
                            }
                        },
                        WatchInput::ChannelError => {
                            if old(self).args.exit_on_error {
                                WatchStep::Exit { code: 11 }
                            } else {
                                WatchStep::Ignore
                            }
                        },
                        WatchInput::Change { .. } => WatchStep::Ignore,
                    })
                },
            },
    {
        match input {
            WatchInput::Change { kind, path } => {
                match kind {
                    RawKind::Chmod => WatchStep::Ignore,
                    RawKind::Rescan => WatchStep::Ignore,
                    _ => {
                        match path {
                            None => WatchStep::Ignore,
                            Some(p) => {
                                if self.args.accepts(p.as_str()) {
                                    let generation = self.scheduler.current_generation() + 1;
                                    let deadline = self.scheduler.touch(p, now);
                                    WatchStep::Arm { deadline, generation }
                                } else {
                                    WatchStep::Ignore
                                }
                            },
                        }
                    },
                }
            },
            WatchInput::WatchError => {
                if self.args.exit_on_error {
                    WatchStep::Exit { code: 10 }
                } else {
                    WatchStep::Ignore
                }
            },
            WatchInput::ChannelError => {
                if self.args.exit_on_error {
                    WatchStep::Exit { code: 11 }
                } else {
                    WatchStep::Ignore
                }
            },
        }
    }

    /// Decide what a timer firing for `generation` dispatches.  A stale or
    /// empty firing dispatches nothing.  Otherwise the pending set is
    /// snapshotted and cleared, the snapshot relativized when so
    /// configured — a path outside the root is the fatal outcome — and the
    /// invocation built exactly as the planning functions say.
    pub fn on_timer(&mut self, generation: u64) -> (outcome: FireOutcome)
        requires
            old(self).wf(),
        ensures
            final(self).wf(),
            final(self).args == old(self).args,
            final(self).scheduler.generation == old(self).scheduler.generation,
            generation != old(self).scheduler.generation ==> final(self).scheduler == old(
                self,
            ).scheduler && outcome is Nothing,
            generation == old(self).scheduler.generation && old(self).scheduler.pending@.len()
                == 0 ==> final(self).scheduler.pending@.len() == 0 && outcome is Nothing,
            generation == old(self).scheduler.generation && old(self).scheduler.pending@.len() > 0
                ==> {
                &&& final(self).scheduler.pending@.len() == 0
                &&& final(self).scheduler.deadline is None
                &&& match outcome {
                    FireOutcome::Nothing => false,
                    FireOutcome::Run(inv) => run_matches_snapshot(
                        old(self).args.model(),
                        old(self).scheduler.model().pending,
                        inv,
                    ),
                    FireOutcome::PathOutsideRoot(p) => {
                        &&& old(self).args.relativize_paths
                        &&& old(self).scheduler.model().pending.contains(p@)
                        &&& strip_prefix_spec(old(self).args.path@, p@) is None
                    },
                }
            },
    {
        let ghost m = self.args.model();
        let ghost pend0 = self.scheduler.model().pending;
        match self.scheduler.fire(generation) {
            None => FireOutcome::Nothing,
            Some(paths) => {
                proof {
                    assert forall|q: Seq<char>|
                        seq_set(views_of(paths@)).contains(q) == path_set(paths@).contains(
                            q,
                        ) by {
                        if seq_set(views_of(paths@)).contains(q) {
                            let k = choose|k: int|
                                0 <= k < views_of(paths@).len() && views_of(paths@)[k] == q;
                            assert(paths@[k]@ == q);
                        }
                        if path_set(paths@).contains(q) {
                            let k = choose|k: int| 0 <= k < paths@.len() && paths@[k]@ == q;
                            assert(views_of(paths@)[k] == q);
                        }
                    };
                    assert(seq_set(views_of(paths@)) =~= pend0);
                }
                if self.args.relativize_paths {
                    match self.args.relativize_all(&paths) {
                        Ok(rel) => {
                            let inv = self.args.plan_invocation(&rel);
                            proof {
                                let v = views_of(paths@);
                                assert(seq_set(v) == pend0 && v.len() > 0 && inv.program@
                                    == planned_program(m) && all_under_root(m.path, v)
                                    && views_of(inv.argv@) == planned_argv(
                                    m,
                                    relativized(m.path, v),
                                ));
                            }
                            FireOutcome::Run(inv)
                        },
                        Err(p) => {
                            proof {
                                assert(pend0.contains(p@));
                            }
                            FireOutcome::PathOutsideRoot(p)
                        },
                    }
                } else {
                    let inv = self.args.plan_invocation(&paths);
                    proof {
                        let v = views_of(paths@);
                        assert(seq_set(v) == pend0 && v.len() > 0 && inv.program@
                            == planned_program(m) && views_of(inv.argv@) == planned_argv(m, v));
                    }
                    FireOutcome::Run(inv)
                }
            },
        }
    }
}

} // verus!
