//! Abort signals of asynchronous tasks.
//!
//! A JavaScript `AbortSignal` object may be handed to several tasks; each
//! hand-over registers one entry on the object's stack. An entry records the
//! state that the task and the signal share: the async work of the task
//! once it is queued, the task's status, and the callbacks to run on abort.
//! An [`AbortSignal`] is the task's handle on its entry.
use vstd::prelude::*;

verus! {

/// The status of a task, as shared between the task and its abort signal.
#[derive(Clone, Copy, Debug, PartialEq, Eq, Structural)]
pub enum TaskStatus {
    /// Queued or running.
    Pending,
    /// Finished; an abort no longer affects it.
    Completed,
    /// Aborted; its completion rejects.
    Aborted,
}

/// The state shared by a task and one registration of an abort signal.
pub struct SignalState<C> {
    /// The task's async work, once queued (`None` while there is none).
    pub work: Option<u64>,
    pub status: TaskStatus,
    /// The callbacks registered with `on_abort`, in registration order.
    pub callbacks: Vec<C>,
}

/// The registrations of one JavaScript abort signal, in registration order.
pub struct AbortSignalStack<C> {
    pub signals: Vec<SignalState<C>>,
}

/// A task's handle on its registration of an abort signal.
#[derive(Clone, Copy, Debug, PartialEq, Eq, Structural)]
pub struct AbortSignal {
    slot: usize,
}

/// What aborting a signal asks of the runtime, in order.
#[derive(Clone, Copy, Debug, PartialEq, Eq, Structural)]
pub enum AbortAction {
    /// Run the callbacks of the registration, in registration order.
    RunCallbacks { slot: usize },
    /// Cancel the queued async work of the registration.
    CancelWork { slot: usize, work: u64 },
}

/// A fresh registration: no work yet, pending, no callbacks.
pub open spec fn fresh_state<C>(s: SignalState<C>) -> bool {
    s.work is None && s.status == TaskStatus::Pending && s.callbacks@.len() == 0
}

/// No registration before `j` belongs to a completed task.
pub open spec fn none_completed_before<C>(states: Seq<SignalState<C>>, j: int) -> bool {
    forall|i: int| 0 <= i < j ==> (#[trigger] states[i]).status != TaskStatus::Completed
}

/// `k` is the first registration whose task has completed.
pub open spec fn first_completed<C>(states: Seq<SignalState<C>>, k: int) -> bool {
    &&& 0 <= k < states.len()
    &&& states[k].status == TaskStatus::Completed
    &&& none_completed_before(states, k)
}

/// The status of registration `j` after an abort: every registration before
/// the first completed one is marked aborted; the rest keep their status.
pub open spec fn status_after_abort<C>(states: Seq<SignalState<C>>, j: int) -> TaskStatus {
    if none_completed_before(states, j) && states[j].status != TaskStatus::Completed {
        TaskStatus::Aborted
    } else {
        states[j].status
    }
}

/// The cancellation asked for registration `slot`: its work, when there is
/// one and the platform can cancel work.
pub open spec fn cancel_action<C>(s: SignalState<C>, slot: int, cancel_supported: bool) -> Seq<
    AbortAction,
> {
    if cancel_supported && s.work is Some {
        seq![AbortAction::CancelWork { slot: slot as usize, work: s.work->0 }]
    } else {
        Seq::empty()
    }
}

/// The actions for the first `n` registrations when none of them has
/// completed: for each, run its callbacks, then cancel its work.
pub open spec fn actions_upto<C>(states: Seq<SignalState<C>>, cancel_supported: bool, n: int) -> Seq<
    AbortAction,
>
    decreases n,
{
    if n <= 0 {
        Seq::empty()
    } else {
        actions_upto(states, cancel_supported, n - 1).push(
            AbortAction::RunCallbacks { slot: (n - 1) as usize },
        ) + cancel_action(states[n - 1], n - 1, cancel_supported)
    }
}

/// The actions of an abort: registrations are visited in order; the
/// callbacks of each are run, and the visit stops after the callbacks of
/// the first completed task; the work of every other visited registration
/// is cancelled.
pub open spec fn planned_actions<C>(states: Seq<SignalState<C>>, cancel_supported: bool) -> Seq<
    AbortAction,
> {
    if exists|k: int| first_completed(states, k) {
        let k = choose|k: int| first_completed(states, k);
        actions_upto(states, cancel_supported, k).push(AbortAction::RunCallbacks { slot: k as usize })
    } else {
        actions_upto(states, cancel_supported, states.len() as int)
    }
}

impl AbortSignal {
    /// The registration this handle refers to.
    pub closed spec fn spec_slot(self) -> nat {
        self.slot as nat
    }

    /// The position of the registration on the signal's stack.
    pub fn slot(&self) -> (r: usize)
        ensures
            r == self.spec_slot(),
    {
        self.slot
    }

    /// Registers `cb` to run when the signal is aborted.
    pub fn on_abort<C>(&self, stack: &mut AbortSignalStack<C>, cb: C)
        requires
            self.spec_slot() < old(stack).signals@.len(),
        ensures
            final(stack).signals@.len() == old(stack).signals@.len(),
            forall|j: int|
                0 <= j < old(stack).signals@.len() && j != self.spec_slot() ==> #[trigger] final(stack).signals@[j] == old(stack).signals@[j],
            final(stack).signals@[self.spec_slot() as int].callbacks@ == old(stack).signals@[self.spec_slot() as int].callbacks@.push(cb),
            final(stack).signals@[self.spec_slot() as int].work == old(stack).signals@[self.spec_slot() as int].work,
            final(stack).signals@[self.spec_slot() as int].status == old(stack).signals@[self.spec_slot() as int].status,
    {
        stack.signals[self.slot].callbacks.push(cb);
    }
}

impl<C> AbortSignalStack<C> {
    /// Registers one more task on a signal: on the signal's existing stack,
    /// if it has one, else on a new stack. The new registration is fresh and
    /// comes last; the handle refers to it.
    pub fn register(existing: Option<AbortSignalStack<C>>) -> (r: (AbortSignalStack<C>, AbortSignal))
        requires
            existing matches Some(s) ==> s.signals@.len() < usize::MAX,
        ensures
            ({
                let prev = match existing {
                    Some(s) => s.signals@,
                    None => Seq::<SignalState<C>>::empty(),
                };
                &&& r.0.signals@.len() == prev.len() + 1
                &&& r.0.signals@.take(prev.len() as int) == prev
                &&& fresh_state(r.0.signals@[prev.len() as int])
                &&& r.1.spec_slot() == prev.len()
            }),
    {
        let mut stack = match existing {
            Some(s) => s,
            None => AbortSignalStack { signals: Vec::new() },
        };
        let ghost prev = stack.signals@;
        let slot = stack.signals.len();
        stack.signals.push(SignalState { work: None, status: TaskStatus::Pending, callbacks: Vec::new() });
        assert(stack.signals@.take(prev.len() as int) =~= prev);
        (stack, AbortSignal { slot })
    }

    /// Records the async work of the task that holds `signal`.
    pub fn attach_work(&mut self, signal: AbortSignal, work: u64)
        requires
            signal.spec_slot() < old(self).signals@.len(),
        ensures
            final(self).signals@.len() == old(self).signals@.len(),
            forall|j: int|
                0 <= j < old(self).signals@.len() && j != signal.spec_slot() ==> #[trigger] final(self).signals@[j] == old(self).signals@[j],
            final(self).signals@[signal.spec_slot() as int].work == Some(work),
            final(self).signals@[signal.spec_slot() as int].status == old(self).signals@[signal.spec_slot() as int].status,
            final(self).signals@[signal.spec_slot() as int].callbacks == old(self).signals@[signal.spec_slot() as int].callbacks,
    {
        self.signals[signal.slot()].work = Some(work);
    }

    /// Records the queued async work of a task: on its registration when the
    /// task has an abort signal, nowhere when it has none.
    pub fn record_work(&mut self, signal: Option<AbortSignal>, work: u64)
        requires
            signal matches Some(s) ==> s.spec_slot() < old(self).signals@.len(),
        ensures
            match signal {
                None => *final(self) == *old(self),
                Some(s) => {
                    &&& final(self).signals@.len() == old(self).signals@.len()
                    &&& forall|j: int|
                        0 <= j < old(self).signals@.len() && j != s.spec_slot() ==> #[trigger] final(self).signals@[j] == old(self).signals@[j]
                    &&& final(self).signals@[s.spec_slot() as int].work == Some(work)
                    &&& final(self).signals@[s.spec_slot() as int].status == old(self).signals@[s.spec_slot() as int].status
                    &&& final(self).signals@[s.spec_slot() as int].callbacks == old(self).signals@[s.spec_slot() as int].callbacks
                },
            },
    {
        match signal {
            Some(s) => self.attach_work(s, work),
            None => {},
        }
    }

    /// Aborts the signal: marks the tasks aborted and returns what the
    /// runtime must do, in order (see `planned_actions`). `cancel_supported`
    /// tells whether the platform can cancel queued work.
    pub fn abort(&mut self, cancel_supported: bool) -> (actions: Vec<AbortAction>)
        ensures
            final(self).signals@.len() == old(self).signals@.len(),
            forall|j: int|
                0 <= j < old(self).signals@.len() ==> {
                    &&& (#[trigger] final(self).signals@[j]).work == old(self).signals@[j].work
                    &&& final(self).signals@[j].callbacks == old(self).signals@[j].callbacks
                    &&& final(self).signals@[j].status == status_after_abort(old(self).signals@, j)
                },
            actions@ == planned_actions(old(self).signals@, cancel_supported),
    {
        let ghost before = self.signals@;
        let n = self.signals.len();
        // The first registration whose task has completed, or `n`.
        let mut stop: usize = 0;
        while stop < n && self.signals[stop].status != TaskStatus::Completed
            invariant
                stop <= n,
                n == before.len(),
                self.signals@ == before,
                none_completed_before(before, stop as int),
            decreases n - stop,
        {
            stop = stop + 1;
        }
        let mut actions: Vec<AbortAction> = Vec::new();
        let mut i: usize = 0;
        while i < stop
            invariant
                i <= stop <= n,
                n == before.len(),
                self.signals@.len() == n,
                none_completed_before(before, stop as int),
                actions@ == actions_upto(before, cancel_supported, i as int),
                forall|j: int|
                    0 <= j < n ==> {
                        &&& (#[trigger] self.signals@[j]).work == before[j].work
                        &&& self.signals@[j].callbacks == before[j].callbacks
                        &&& self.signals@[j].status == if j < i {
                            TaskStatus::Aborted
                        } else {
                            before[j].status
                        }
                    },
            decreases stop - i,
        {
            actions.push(AbortAction::RunCallbacks { slot: i });
            self.signals[i].status = TaskStatus::Aborted;
            if cancel_supported {
                match self.signals[i].work {
                    Some(w) => {
                        actions.push(AbortAction::CancelWork { slot: i, work: w });
                    },
                    None => {},
                }
            }
            proof {
                assert(actions@ =~= actions_upto(before, cancel_supported, i + 1));
            }
            i = i + 1;
        }
        if stop < n {
            actions.push(AbortAction::RunCallbacks { slot: stop });
            proof {
                assert(first_completed(before, stop as int));
                let k = choose|k: int| first_completed(before, k);
                assert(k == stop) by {
                    if k < stop {
                        assert(before[k].status != TaskStatus::Completed);
                    } else if k > stop {
                        assert(before[stop as int].status != TaskStatus::Completed);
                    }
                }
            }
        } else {
            proof {
                assert(!exists|k: int| first_completed(before, k));
            }
        }
        proof {
            assert forall|j: int| 0 <= j < n implies #[trigger] self.signals@[j].status
                == status_after_abort(before, j) by {
                if j > stop {
                    assert(!none_completed_before(before, j));
                }
            }
        }
        actions
    }
}

} // verus!

verus! {

/// The actions for the first `n` registrations: callbacks are run for
/// exactly those registrations, and work is cancelled only where there is
/// work and the platform can cancel; every registration below `n` with
/// work gets its cancellation when the platform can cancel.
proof fn lemma_actions_upto<C>(states: Seq<SignalState<C>>, cancel_supported: bool, n: int)
    requires
        0 <= n <= states.len() <= usize::MAX,
    ensures
        forall|a: AbortAction|
            #[trigger] actions_upto(states, cancel_supported, n).contains(a) ==> match a {
                AbortAction::RunCallbacks { slot } => slot < n,
                AbortAction::CancelWork { slot, work } => cancel_supported && slot < n
                    && states[slot as int].work == Some(work),
            },
        forall|i: int|
            0 <= i < n ==> #[trigger] actions_upto(states, cancel_supported, n).contains(
                AbortAction::RunCallbacks { slot: i as usize },
            ),
        forall|i: int|
            0 <= i < n && cancel_supported && (#[trigger] states[i]).work is Some ==> actions_upto(
                states,
                cancel_supported,
                n,
            ).contains(AbortAction::CancelWork { slot: i as usize, work: states[i].work->0 }),
    decreases n,
{
    if n > 0 {
        lemma_actions_upto(states, cancel_supported, n - 1);
        let prev = actions_upto(states, cancel_supported, n - 1);
        let run = AbortAction::RunCallbacks { slot: (n - 1) as usize };
        let cur = actions_upto(states, cancel_supported, n);
        let c = cancel_action(states[n - 1], n - 1, cancel_supported);
        assert(cur == prev.push(run) + c);
        assert forall|a: AbortAction| #[trigger] cur.contains(a) implies match a {
            AbortAction::RunCallbacks { slot } => slot < n,
            AbortAction::CancelWork { slot, work } => cancel_supported && slot < n
                && states[slot as int].work == Some(work),
        } by {
            let idx = choose|idx: int| 0 <= idx < cur.len() && cur[idx] == a;
            if idx < prev.len() {
                assert(prev[idx] == a);
                assert(prev.contains(a));
            } else if idx == prev.len() {
                assert(a == run);
            } else {
                assert(c[idx - prev.len() - 1] == a);
            }
        }
        assert forall|i: int| 0 <= i < n implies #[trigger] cur.contains(
            AbortAction::RunCallbacks { slot: i as usize },
        ) by {
            if i < n - 1 {
                assert(prev.contains(AbortAction::RunCallbacks { slot: i as usize }));
                let idx = choose|idx: int|
                    0 <= idx < prev.len() && prev[idx] == AbortAction::RunCallbacks {
                        slot: i as usize,
                    };
                assert(cur[idx] == prev[idx]);
            } else {
                assert(cur[prev.len() as int] == run);
            }
        }
        assert forall|i: int|
            0 <= i < n && cancel_supported && (#[trigger] states[i]).work is Some implies cur.contains(
            AbortAction::CancelWork { slot: i as usize, work: states[i].work->0 },
        ) by {
            if i < n - 1 {
                let idx = choose|idx: int|
                    0 <= idx < prev.len() && prev[idx] == AbortAction::CancelWork {
                        slot: i as usize,
                        work: states[i].work->0,
                    };
                assert(cur[idx] == prev[idx]);
            } else {
                assert(cur[prev.len() + 1int] == c[0]);
            }
        }
    }
}

/// What an abort asks of the runtime: the callbacks of a registration are
/// run exactly when no earlier task has completed; work is cancelled only
/// where the platform can cancel, for a registration whose task has not
/// completed, and it is the work recorded for that registration.
pub proof fn lemma_abort_actions<C>(states: Seq<SignalState<C>>, cancel_supported: bool)
    requires
        states.len() <= usize::MAX,
    ensures
        forall|a: AbortAction|
            #[trigger] planned_actions(states, cancel_supported).contains(a) ==> match a {
                AbortAction::RunCallbacks { slot } => slot < states.len() && none_completed_before(
                    states,
                    slot as int,
                ),
                AbortAction::CancelWork { slot, work } => {
                    &&& cancel_supported
                    &&& slot < states.len()
                    &&& states[slot as int].work == Some(work)
                    &&& states[slot as int].status != TaskStatus::Completed
                },
            },
        forall|i: int|
            0 <= i < states.len() && none_completed_before(states, i) ==> #[trigger] planned_actions(
                states,
                cancel_supported,
            ).contains(AbortAction::RunCallbacks { slot: i as usize }),
{
    let plan = planned_actions(states, cancel_supported);
    if exists|k: int| first_completed(states, k) {
        let k = choose|k: int| first_completed(states, k);
        lemma_actions_upto(states, cancel_supported, k);
        let prev = actions_upto(states, cancel_supported, k);
        assert(plan == prev.push(AbortAction::RunCallbacks { slot: k as usize }));
        assert forall|a: AbortAction| #[trigger] plan.contains(a) implies match a {
            AbortAction::RunCallbacks { slot } => slot < states.len() && none_completed_before(
                states,
                slot as int,
            ),
            AbortAction::CancelWork { slot, work } => {
                &&& cancel_supported
                &&& slot < states.len()
                &&& states[slot as int].work == Some(work)
                &&& states[slot as int].status != TaskStatus::Completed
            },
        } by {
            let idx = choose|idx: int| 0 <= idx < plan.len() && plan[idx] == a;
            if idx < prev.len() {
                assert(prev[idx] == a);
                assert(prev.contains(a));
            }
        }
        assert forall|i: int|
            0 <= i < states.len() && none_completed_before(states, i) implies #[trigger] plan.contains(
            AbortAction::RunCallbacks { slot: i as usize },
        ) by {
            if i < k {
                assert(prev.contains(AbortAction::RunCallbacks { slot: i as usize }));
                let idx = choose|idx: int|
                    0 <= idx < prev.len() && prev[idx] == AbortAction::RunCallbacks {
                        slot: i as usize,
                    };
                assert(plan[idx] == prev[idx]);
            } else if i == k {
                assert(plan[prev.len() as int] == AbortAction::RunCallbacks { slot: k as usize });
            } else {
                assert(states[k].status == TaskStatus::Completed);
            }
        }
    } else {
        lemma_actions_upto(states, cancel_supported, states.len() as int);
        assert forall|a: AbortAction| #[trigger] plan.contains(a) implies match a {
            AbortAction::RunCallbacks { slot } => slot < states.len() && none_completed_before(
                states,
                slot as int,
            ),
            AbortAction::CancelWork { slot, work } => {
                &&& cancel_supported
                &&& slot < states.len()
                &&& states[slot as int].work == Some(work)
                &&& states[slot as int].status != TaskStatus::Completed
            },
        } by {
            match a {
                AbortAction::RunCallbacks { slot } => {
                    assert forall|j: int| 0 <= j < slot implies (#[trigger] states[j]).status
                        != TaskStatus::Completed by {
                        if states[j].status == TaskStatus::Completed {
                            lemma_first_completed_exists(states, j);
                        }
                    }
                },
                AbortAction::CancelWork { slot, work } => {
                    if states[slot as int].status == TaskStatus::Completed {
                        lemma_first_completed_exists(states, slot as int);
                    }
                },
            }
        }
    }
}

/// When some task has completed, there is a first completed one.
proof fn lemma_first_completed_exists<C>(states: Seq<SignalState<C>>, k: int)
    requires
        0 <= k < states.len(),
        states[k].status == TaskStatus::Completed,
    ensures
        exists|q: int| first_completed(states, q),
    decreases k,
{
    if exists|j: int| 0 <= j < k && (#[trigger] states[j]).status == TaskStatus::Completed {
        let j = choose|j: int| 0 <= j < k && (#[trigger] states[j]).status == TaskStatus::Completed;
        lemma_first_completed_exists(states, j);
    } else {
        assert(first_completed(states, k));
    }
}

/// Work recorded for a task is cancelled when its signal is aborted before
/// any task up to and including it has completed, on a platform that can
/// cancel work.
pub proof fn lemma_abort_cancels_attached_work<C>(
    states: Seq<SignalState<C>>,
    slot: int,
    work: u64,
)
    requires
        states.len() <= usize::MAX,
        0 <= slot < states.len(),
        states[slot].work == Some(work),
        none_completed_before(states, slot + 1),
    ensures
        planned_actions(states, true).contains(
            AbortAction::CancelWork { slot: slot as usize, work },
        ),
{
    let plan = planned_actions(states, true);
    if exists|k: int| first_completed(states, k) {
        let k = choose|k: int| first_completed(states, k);
        assert(k > slot) by {
            if k <= slot {
                assert(states[k].status != TaskStatus::Completed);
            }
        }
        lemma_actions_upto(states, true, k);
        let prev = actions_upto(states, true, k);
        assert(states[slot].work is Some);
        let idx = choose|idx: int|
            0 <= idx < prev.len() && prev[idx] == AbortAction::CancelWork {
                slot: slot as usize,
                work: states[slot].work->0,
            };
        assert(plan[idx] == prev[idx]);
    } else {
        lemma_actions_upto(states, true, states.len() as int);
        assert(states[slot].work is Some);
    }
}

/// Aborting is idempotent on the tasks' statuses: once a signal has been
/// aborted, aborting it again changes no status.
pub proof fn lemma_abort_twice<C>(before: Seq<SignalState<C>>, after: Seq<SignalState<C>>)
    requires
        after.len() == before.len(),
        forall|j: int|
            0 <= j < before.len() ==> (#[trigger] after[j]).status == status_after_abort(
                before,
                j,
            ),
    ensures
        forall|j: int|
            0 <= j < after.len() ==> status_after_abort(after, j) == (#[trigger] after[j]).status,
{
    assert forall|j: int| 0 <= j < after.len() implies status_after_abort(after, j) == (
    #[trigger] after[j]).status by {
        if none_completed_before(after, j) && after[j].status != TaskStatus::Completed {
            assert(after[j].status == status_after_abort(before, j));
            if !none_completed_before(before, j) {
                let i = choose|i: int|
                    0 <= i < j && (#[trigger] before[i]).status == TaskStatus::Completed;
                assert(after[i].status == status_after_abort(before, i));
                assert(after[i].status == TaskStatus::Completed);
            }
            assert(before[j].status != TaskStatus::Completed);
        }
    }
}

} // verus!
