//! A fixed-priority preemptive scheduler for one execution context, with
//! priority-ceiling locks and a queue of deadlines.
//!
//! The scheduler decides; it runs nothing itself. Whoever drives it reports
//! what happened (an interrupt line was asserted, the clock was read, the
//! running task is done) and asks which task to start next.

use vstd::prelude::*;
use crate::clock::{Duration, Instant};
use crate::task::{ceiling, ceiling_of, line_taken, tasks_valid, Task, TaskTable, Trigger};

verus! {

/// A deadline that a time-bound task waits for.
#[derive(Clone, Copy, Debug, PartialEq, Eq, Structural)]
pub struct TimerEntry {
    pub task: usize,
    pub deadline: Instant,
}

/// A lock that a running task holds, and the level to go back to when the
/// lock is released.
#[derive(Clone, Copy, Debug, PartialEq, Eq, Structural)]
pub struct Held {
    pub resource: usize,
    pub restore: u8,
}

/// A task that was started and is not yet done.
pub struct Frame {
    pub task: usize,
    /// The deadline that released a time-bound task.
    pub deadline: Option<Instant>,
    /// Whether a hardware-bound task has cleared its interrupt line.
    pub acknowledged: bool,
    /// The priority the task runs at now: its own, or the ceiling of a
    /// resource it holds.
    pub level: u8,
    /// The locks the task holds, the latest last.
    pub held: Vec<Held>,
}

/// Why the scheduler refused a request.
#[derive(Clone, Copy, Debug, PartialEq, Eq, Structural)]
pub enum SchedError {
    /// No task is running.
    Idle,
    /// There is no task with this number.
    UnknownTask,
    /// No task is bound to this interrupt line.
    UnknownInterrupt,
    /// The task is bound to an interrupt line and takes no deadlines.
    NotTimeBound,
    /// The task is time-bound and has no interrupt line to clear.
    NotHardwareBound,
    /// The running task has not cleared its interrupt line yet.
    NotAcknowledged,
    /// The running task did not declare this resource.
    NotDeclared,
    /// The running task holds this resource already.
    AlreadyHeld,
    /// The running task still holds a lock.
    LockHeld,
    /// The running task holds no lock.
    NoLockHeld,
    /// The running task runs below the resource's ceiling and has to take
    /// the lock first.
    BelowCeiling,
}

/// Where a task stands.
#[derive(Clone, Copy, Debug, PartialEq, Eq, Structural)]
pub enum TaskState {
    /// Nothing asks for the task to run.
    Idle,
    /// A deadline is set for the task and has not been released yet.
    Armed,
    /// The task is to run as soon as its priority allows.
    Ready,
    /// The task was started and is not done; it may be preempted.
    Running,
}

/// What the execution context is to do next.
#[derive(Clone, Copy, Debug, PartialEq, Eq, Structural)]
pub enum Action {
    /// The named task starts and preempts whatever ran before.
    Start(usize),
    /// The named task, which is the running one, continues: nothing more
    /// urgent is ready.
    Resume(usize),
    /// Nothing is running and nothing is ready.
    Sleep,
}

/// The scheduler's whole state: the fixed task table with its ceilings,
/// what is ready, what is waiting for the clock, and what is running.
pub struct Scheduler {
    /// The tasks, fixed at start.
    pub tasks: Vec<Task>,
    /// The priority ceiling of each resource.
    pub ceilings: Vec<u8>,
    /// For each task, whether its interrupt line is asserted.
    pub latched: Vec<bool>,
    /// Deadlines not yet released, in the order they were set.
    pub timers: Vec<TimerEntry>,
    /// Released deadlines whose tasks have not started, in the order they
    /// were released.
    pub ready: Vec<TimerEntry>,
    /// The started tasks: the last one runs, the others are preempted.
    pub frames: Vec<Frame>,
}

/// The larger of two levels.
pub open spec fn higher(a: u8, b: u8) -> u8 {
    if a >= b {
        a
    } else {
        b
    }
}

/// The entries whose deadline the clock has reached at `now`.
pub open spec fn due(now: Instant) -> spec_fn(TimerEntry) -> bool {
    |e: TimerEntry| now.reached(e.deadline)
}

/// The entries whose deadline is still ahead at `now`.
pub open spec fn pending(now: Instant) -> spec_fn(TimerEntry) -> bool {
    |e: TimerEntry| !now.reached(e.deadline)
}

/// A reading of the clock loses no deadline: every entry is afterwards
/// among the released ones if the clock has reached it, and among the
/// waiting ones if not.
pub proof fn lemma_tick_keeps_entries(timers: Seq<TimerEntry>, now: Instant, k: int)
    requires
        0 <= k < timers.len(),
    ensures
        now.reached(timers[k].deadline) ==> timers.filter(due(now)).contains(timers[k]),
        !now.reached(timers[k].deadline) ==> timers.filter(pending(now)).contains(timers[k]),
{
    if now.reached(timers[k].deadline) {
        assert(due(now)(timers[k]));
        timers.lemma_filter_contains(due(now), k);
    } else {
        assert(pending(now)(timers[k]));
        timers.lemma_filter_contains(pending(now), k);
    }
}

proof fn lemma_filter_step(s: Seq<TimerEntry>, p: spec_fn(TimerEntry) -> bool, i: int)
    requires
        0 <= i < s.len(),
    ensures
        s.take(i + 1).filter(p) == if p(s[i]) {
            s.take(i).filter(p).push(s[i])
        } else {
            s.take(i).filter(p)
        },
{
    reveal(Seq::filter);
    assert(s.take(i + 1).drop_last() =~= s.take(i));
}

/// Whether some entry of the queue names the task.
fn names(queue: &Vec<TimerEntry>, task: usize) -> (b: bool)
    ensures
        b == exists|k: int| 0 <= k < queue@.len() && (#[trigger] queue@[k]).task == task,
{
    let mut k: usize = 0;
    while k < queue.len()
        invariant
            k <= queue@.len(),
            forall|j: int| 0 <= j < k ==> (#[trigger] queue@[j]).task != task,
        decreases queue@.len() - k,
    {
        if queue[k].task == task {
            return true;
        }
        k = k + 1;
    }
    false
}

impl Frame {
    /// The level in force after lock `k` was taken: what the next lock
    /// restores, or the current level for the latest lock.
    pub open spec fn level_above(&self, k: int) -> u8 {
        if k + 1 < self.held@.len() {
            self.held@[k + 1].restore
        } else {
            self.level
        }
    }

    /// Whether the task holds resource `r`.
    pub open spec fn holds(&self, r: usize) -> bool {
        exists|k: int| 0 <= k < self.held@.len() && (#[trigger] self.held@[k]).resource == r
    }

    /// Whether `other` is the same activation of the same task: locks and
    /// level may differ.
    pub open spec fn same_activation(&self, other: Frame) -> bool {
        self.task == other.task && self.deadline == other.deadline && self.acknowledged
            == other.acknowledged
    }

    /// Whether the task holds resource `r`.
    pub fn has_lock(&self, r: usize) -> (b: bool)
        ensures
            b == self.holds(r),
    {
        let mut k: usize = 0;
        while k < self.held.len()
            invariant
                k <= self.held@.len(),
                forall|j: int| 0 <= j < k ==> (#[trigger] self.held@[j]).resource != r,
            decreases self.held@.len() - k,
        {
            if self.held[k].resource == r {
                return true;
            }
            k = k + 1;
        }
        false
    }
}

impl Scheduler {
    /// The priority of task `t`.
    pub open spec fn priority(&self, t: int) -> u8 {
        self.tasks@[t].priority
    }

    /// The level the system runs at: that of the running task, or 0 when
    /// nothing runs.
    pub open spec fn level(&self) -> u8 {
        if self.frames@.len() == 0 {
            0
        } else {
            self.frames@.last().level
        }
    }

    /// A queue entry names a time-bound task.
    pub open spec fn entry_ok(&self, e: TimerEntry) -> bool {
        e.task < self.tasks@.len() && self.tasks@[e.task as int].trigger == Trigger::TimeBound
    }

    /// A frame follows the locking protocol: every lock is on a declared
    /// resource, each lock raised the level to no less than the resource's
    /// ceiling and no further, and without locks the task runs at its own
    /// priority.
    pub open spec fn frame_ok(&self, f: Frame) -> bool {
        &&& f.task < self.tasks@.len()
        &&& self.priority(f.task as int) <= f.level
        &&& (f.deadline is Some <==> self.tasks@[f.task as int].trigger == Trigger::TimeBound)
        &&& (f.deadline is Some ==> f.acknowledged)
        &&& (f.held@.len() == 0 ==> f.level == self.priority(f.task as int))
        &&& (f.held@.len() > 0 ==> f.held@[0].restore == self.priority(f.task as int))
        &&& forall|k: int|
            0 <= k < f.held@.len() ==> {
                let h = #[trigger] f.held@[k];
                &&& h.resource < self.ceilings@.len()
                &&& self.tasks@[f.task as int].declares(h.resource)
                &&& f.level_above(k) == higher(h.restore, self.ceilings@[h.resource as int])
                &&& h.restore <= f.level
                &&& self.ceilings@[h.resource as int] <= f.level
            }
        &&& forall|j: int, k: int|
            0 <= j < k < f.held@.len() ==> {
                let a = #[trigger] f.held@[j];
                let b = #[trigger] f.held@[k];
                &&& a.resource != b.resource
                &&& a.restore <= b.restore
                &&& self.ceilings@[a.resource as int] <= b.restore
            }
    }

    /// Started task number `i` may touch resource `r` now: it declared the
    /// resource and runs at no less than the resource's ceiling.
    pub open spec fn may_access(&self, i: int, r: usize) -> bool {
        &&& 0 <= i < self.frames@.len()
        &&& r < self.ceilings@.len()
        &&& self.tasks@[self.frames@[i].task as int].declares(r)
        &&& self.frames@[i].level >= self.ceilings@[r as int]
    }

    /// What the running task is told when it asks to touch resource `r`.
    pub open spec fn access_outcome(&self, r: usize) -> Result<(), SchedError> {
        if self.frames@.len() == 0 {
            Err(SchedError::Idle)
        } else if !self.frames@.last().acknowledged {
            Err(SchedError::NotAcknowledged)
        } else if !self.tasks@[self.frames@.last().task as int].declares(r) {
            Err(SchedError::NotDeclared)
        } else if self.frames@.last().level < self.ceilings@[r as int] {
            Err(SchedError::BelowCeiling)
        } else {
            Ok(())
        }
    }

    /// What `lock` answers to the running task's request for `resource`.
    pub open spec fn lock_outcome(&self, resource: usize) -> Result<(), SchedError> {
        if self.frames@.len() == 0 {
            Err(SchedError::Idle)
        } else if !self.frames@.last().acknowledged {
            Err(SchedError::NotAcknowledged)
        } else if !self.tasks@[self.frames@.last().task as int].declares(resource) {
            Err(SchedError::NotDeclared)
        } else if self.frames@.last().holds(resource) {
            Err(SchedError::AlreadyHeld)
        } else {
            Ok(())
        }
    }

    /// What `complete` answers.
    pub open spec fn complete_outcome(&self) -> Result<usize, SchedError> {
        if self.frames@.len() == 0 {
            Err(SchedError::Idle)
        } else if !self.frames@.last().acknowledged {
            Err(SchedError::NotAcknowledged)
        } else if self.frames@.last().held@.len() > 0 {
            Err(SchedError::LockHeld)
        } else {
            Ok(self.frames@.last().task)
        }
    }

    /// Task `t` is ready because its interrupt line is asserted.
    pub open spec fn line_ready(&self, t: int) -> bool {
        0 <= t < self.tasks@.len() && self.latched@[t]
    }

    /// The priority of the task that ready entry `k` names.
    pub open spec fn entry_priority(&self, k: int) -> u8 {
        self.priority(self.ready@[k].task as int)
    }

    /// No ready task has a priority above the level the system runs at, so
    /// there is nothing to start.
    pub open spec fn nothing_to_start(&self) -> bool {
        &&& forall|u: int| #[trigger] self.line_ready(u) ==> self.priority(u) <= self.level()
        &&& forall|k: int|
            0 <= k < self.ready@.len() ==> #[trigger] self.entry_priority(k) <= self.level()
    }

    /// Hardware-bound task `t` is the one to start: it is ready, above the
    /// current level, of the highest priority among all ready tasks, and
    /// the lowest-numbered such hardware-bound task.
    pub open spec fn line_chosen(&self, t: int) -> bool {
        &&& self.line_ready(t)
        &&& self.priority(t) > self.level()
        &&& forall|u: int| #[trigger] self.line_ready(u) ==> self.priority(u) <= self.priority(t)
        &&& forall|u: int|
            #[trigger] self.line_ready(u) && u < t ==> self.priority(u) < self.priority(t)
        &&& forall|k: int|
            0 <= k < self.ready@.len() ==> #[trigger] self.entry_priority(k) <= self.priority(t)
    }

    /// Ready entry `k` is the one to start: its task is above the current
    /// level, of higher priority than every ready hardware-bound task, of
    /// the highest priority in the ready queue, and the earliest entry of
    /// that priority.
    pub open spec fn entry_chosen(&self, k: int) -> bool {
        &&& 0 <= k < self.ready@.len()
        &&& self.entry_priority(k) > self.level()
        &&& forall|u: int| #[trigger] self.line_ready(u) ==> self.priority(u) < self.entry_priority(k)
        &&& forall|j: int|
            0 <= j < self.ready@.len() ==> #[trigger] self.entry_priority(j) <= self.entry_priority(
                k,
            )
        &&& forall|j: int| 0 <= j < k ==> #[trigger] self.entry_priority(j) < self.entry_priority(k)
    }

    /// Task `t` was started and is not done.
    pub open spec fn started(&self, t: usize) -> bool {
        exists|i: int| 0 <= i < self.frames@.len() && (#[trigger] self.frames@[i]).task == t
    }

    /// A deadline of task `t` was released and the task has not started
    /// for it yet.
    pub open spec fn released(&self, t: usize) -> bool {
        exists|k: int| 0 <= k < self.ready@.len() && (#[trigger] self.ready@[k]).task == t
    }

    /// A deadline is set for task `t` and not released yet.
    pub open spec fn armed(&self, t: usize) -> bool {
        exists|k: int| 0 <= k < self.timers@.len() && (#[trigger] self.timers@[k]).task == t
    }

    /// Where task `t` stands.
    pub open spec fn state(&self, t: usize) -> TaskState {
        if self.started(t) {
            TaskState::Running
        } else if self.line_ready(t as int) || self.released(t) {
            TaskState::Ready
        } else if self.armed(t) {
            TaskState::Armed
        } else {
            TaskState::Idle
        }
    }

    /// The step from this state to `next` starts task `t`: a frame for it
    /// is pushed, at the task's own priority and without locks. A
    /// hardware-bound task is the chosen one of its kind, has its line
    /// still to clear, and the ready queue stays as it is; a time-bound
    /// task leaves the ready queue by its chosen entry, whose deadline the
    /// frame keeps.
    pub open spec fn starts(&self, next: Scheduler, t: usize) -> bool {
        let f = next.frames@.last();
        &&& next.frames@.len() == self.frames@.len() + 1
        &&& next.frames@.drop_last() == self.frames@
        &&& t < self.tasks@.len()
        &&& f.task == t
        &&& f.level == self.priority(t as int)
        &&& f.held@.len() == 0
        &&& f.acknowledged == (f.deadline is Some)
        &&& f.deadline is None ==> self.line_chosen(t as int) && next.ready == self.ready
        &&& f.deadline is Some ==> exists|k: int|
            {
                &&& #[trigger] self.entry_chosen(k)
                &&& self.ready@[k] == (TimerEntry { task: t, deadline: f.deadline->Some_0 })
                &&& next.ready@ == self.ready@.remove(k)
            }
    }

    /// What holds of the scheduler at all times.
    pub open spec fn wf(&self) -> bool {
        &&& tasks_valid(self.tasks@, self.ceilings@.len() as usize)
        &&& self.latched@.len() == self.tasks@.len()
        &&& forall|r: int|
            0 <= r < self.ceilings@.len() ==> #[trigger] self.ceilings@[r] == ceiling(
                self.tasks@,
                r as usize,
            )
        &&& forall|t: int|
            0 <= t < self.tasks@.len() && #[trigger] self.latched@[t] ==> self.tasks@[t].trigger
                != Trigger::TimeBound
        &&& forall|i: int| 0 <= i < self.timers@.len() ==> self.entry_ok(#[trigger] self.timers@[i])
        &&& forall|i: int| 0 <= i < self.ready@.len() ==> self.entry_ok(#[trigger] self.ready@[i])
        &&& forall|i: int| 0 <= i < self.frames@.len() ==> self.frame_ok(#[trigger] self.frames@[i])
        &&& forall|i: int, j: int|
            0 <= i < j < self.frames@.len() ==> (#[trigger] self.frames@[i]).level < self.priority(
                (#[trigger] self.frames@[j]).task as int,
            )
    }

    /// Replacing the running task's frame by another sound frame of the
    /// same task keeps the scheduler sound.
    proof fn lemma_top_replaced(&self, before: &Scheduler)
        requires
            before.wf(),
            before.frames@.len() > 0,
            self.tasks == before.tasks,
            self.ceilings == before.ceilings,
            self.timers == before.timers,
            self.ready == before.ready,
            self.latched@.len() == before.latched@.len(),
            forall|t: int|
                0 <= t < self.latched@.len() && #[trigger] self.latched@[t] ==> before.latched@[t],
            self.frames@.len() == before.frames@.len(),
            self.frames@.drop_last() == before.frames@.drop_last(),
            self.frames@.last().task == before.frames@.last().task,
            self.frame_ok(self.frames@.last()),
        ensures
            self.wf(),
    {
        let n = self.frames@.len() as int;
        assert forall|i: int| 0 <= i < n - 1 implies self.frames@[i] == before.frames@[i] by {
            assert(self.frames@.drop_last()[i] == self.frames@[i]);
            assert(before.frames@.drop_last()[i] == before.frames@[i]);
        }
        assert forall|i: int| 0 <= i < self.frames@.len() implies self.frame_ok(
            #[trigger] self.frames@[i],
        ) by {
            if i < n - 1 {
                assert(before.frame_ok(before.frames@[i]));
            }
        }
        assert forall|i: int, j: int| 0 <= i < j < self.frames@.len() implies (
        #[trigger] self.frames@[i]).level < self.priority(
            (#[trigger] self.frames@[j]).task as int,
        ) by {
            assert(before.frames@[i].level < before.priority(before.frames@[j].task as int));
        }
        assert forall|t: int|
            0 <= t < self.tasks@.len() && #[trigger] self.latched@[t] implies self.tasks@[t].trigger
            != Trigger::TimeBound by {
            assert(before.latched@[t]);
        }
        assert forall|i: int| 0 <= i < self.timers@.len() implies self.entry_ok(
            #[trigger] self.timers@[i],
        ) by {
            assert(before.entry_ok(before.timers@[i]));
        }
        assert forall|i: int| 0 <= i < self.ready@.len() implies self.entry_ok(
            #[trigger] self.ready@[i],
        ) by {
            assert(before.entry_ok(before.ready@[i]));
        }
    }

    /// A sound frame stays sound when its latest lock is released and the
    /// level restored.
    proof fn lemma_frame_released(&self, before: Frame, after: Frame)
        requires
            self.frame_ok(before),
            before.held@.len() > 0,
            after.same_activation(before),
            after.held@ == before.held@.drop_last(),
            after.level == before.held@.last().restore,
        ensures
            self.frame_ok(after),
    {
        let m = before.held@.len() as int;
        let last = before.held@[m - 1];
        assert forall|k: int| 0 <= k < after.held@.len() implies {
            let g = #[trigger] after.held@[k];
            &&& g.resource < self.ceilings@.len()
            &&& self.tasks@[after.task as int].declares(g.resource)
            &&& after.level_above(k) == higher(g.restore, self.ceilings@[g.resource as int])
            &&& g.restore <= after.level
            &&& self.ceilings@[g.resource as int] <= after.level
        } by {
            let a = before.held@[k];
            let b = before.held@[m - 1];
            assert(after.held@[k] == a);
            assert(a.restore <= b.restore && self.ceilings@[a.resource as int] <= b.restore);
            if k + 1 < after.held@.len() {
                assert(after.held@[k + 1] == before.held@[k + 1]);
            }
        }
        assert forall|j: int, k: int| 0 <= j < k < after.held@.len() implies {
            let a = #[trigger] after.held@[j];
            let b = #[trigger] after.held@[k];
            &&& a.resource != b.resource
            &&& a.restore <= b.restore
            &&& self.ceilings@[a.resource as int] <= b.restore
        } by {
            let a = before.held@[j];
            let b = before.held@[k];
            assert(after.held@[j] == a);
            assert(after.held@[k] == b);
        }
        if after.held@.len() > 0 {
            assert(after.held@[0] == before.held@[0]);
        }
    }

    /// A sound frame stays sound when it takes a lock on a declared resource
    /// it does not hold and the level rises to the resource's ceiling.
    proof fn lemma_frame_locked(&self, before: Frame, after: Frame, resource: usize)
        requires
            self.frame_ok(before),
            resource < self.ceilings@.len(),
            self.tasks@[before.task as int].declares(resource),
            !before.holds(resource),
            after.same_activation(before),
            after.held@ == before.held@.push(Held { resource, restore: before.level }),
            after.level == higher(before.level, self.ceilings@[resource as int]),
        ensures
            self.frame_ok(after),
    {
        assert forall|k: int| 0 <= k < after.held@.len() implies {
            let h = #[trigger] after.held@[k];
            &&& h.resource < self.ceilings@.len()
            &&& self.tasks@[after.task as int].declares(h.resource)
            &&& after.level_above(k) == higher(h.restore, self.ceilings@[h.resource as int])
            &&& h.restore <= after.level
            &&& self.ceilings@[h.resource as int] <= after.level
        } by {
            if k < before.held@.len() {
                assert(after.held@[k] == before.held@[k]);
                if k + 1 < before.held@.len() {
                    assert(after.held@[k + 1] == before.held@[k + 1]);
                }
            }
        }
        assert forall|j: int, k: int| 0 <= j < k < after.held@.len() implies {
            let a = #[trigger] after.held@[j];
            let b = #[trigger] after.held@[k];
            &&& a.resource != b.resource
            &&& a.restore <= b.restore
            &&& self.ceilings@[a.resource as int] <= b.restore
        } by {
            assert(after.held@[j] == before.held@[j]);
            if k < before.held@.len() {
                assert(after.held@[k] == before.held@[k]);
            }
        }
        if before.held@.len() > 0 {
            assert(after.held@[0] == before.held@[0]);
        }
    }

    /// Starting a task above the current level keeps the scheduler sound.
    proof fn lemma_frame_pushed(&self, before: &Scheduler)
        requires
            before.wf(),
            self.tasks == before.tasks,
            self.ceilings == before.ceilings,
            self.latched == before.latched,
            self.timers == before.timers,
            forall|i: int| 0 <= i < self.ready@.len() ==> self.entry_ok(#[trigger] self.ready@[i]),
            self.frames@.len() == before.frames@.len() + 1,
            self.frames@.drop_last() == before.frames@,
            self.frame_ok(self.frames@.last()),
            self.priority(self.frames@.last().task as int) > before.level(),
        ensures
            self.wf(),
    {
        let n = before.frames@.len() as int;
        assert forall|i: int| 0 <= i < n implies self.frames@[i] == before.frames@[i] by {
            assert(self.frames@.drop_last()[i] == self.frames@[i]);
        }
        assert forall|i: int| 0 <= i < self.frames@.len() implies self.frame_ok(
            #[trigger] self.frames@[i],
        ) by {
            if i < n {
                assert(before.frame_ok(before.frames@[i]));
            }
        }
        assert forall|i: int, j: int| 0 <= i < j < self.frames@.len() implies (
        #[trigger] self.frames@[i]).level < self.priority(
            (#[trigger] self.frames@[j]).task as int,
        ) by {
            if j < n {
                assert(before.frames@[i].level < before.priority(before.frames@[j].task as int));
            } else if i < n - 1 {
                assert(before.frames@[i].level < before.priority(
                    before.frames@[n - 1].task as int,
                ));
                assert(before.frame_ok(before.frames@[n - 1]));
            }
        }
        assert forall|i: int| 0 <= i < self.timers@.len() implies self.entry_ok(
            #[trigger] self.timers@[i],
        ) by {
            assert(before.entry_ok(before.timers@[i]));
        }
    }

    /// When the running task is done the scheduler stays sound, and the
    /// task is no longer among the started ones.
    proof fn lemma_top_popped(&self, before: &Scheduler)
        requires
            before.wf(),
            before.frames@.len() > 0,
            self.tasks == before.tasks,
            self.ceilings == before.ceilings,
            self.latched == before.latched,
            self.timers == before.timers,
            self.ready == before.ready,
            self.frames@ == before.frames@.drop_last(),
        ensures
            self.wf(),
            !self.started(before.frames@.last().task),
    {
        let n = before.frames@.len() as int;
        assert forall|i: int| 0 <= i < self.frames@.len() implies self.frames@[i]
            == before.frames@[i] by {}
        assert forall|i: int| 0 <= i < self.frames@.len() implies self.frame_ok(
            #[trigger] self.frames@[i],
        ) by {
            assert(before.frame_ok(before.frames@[i]));
        }
        assert forall|i: int, j: int| 0 <= i < j < self.frames@.len() implies (
        #[trigger] self.frames@[i]).level < self.priority(
            (#[trigger] self.frames@[j]).task as int,
        ) by {
            assert(before.frames@[i].level < before.priority(before.frames@[j].task as int));
        }
        assert forall|i: int| 0 <= i < self.frames@.len() implies (#[trigger] self.frames@[i]).task
            != before.frames@[n - 1].task by {
            assert(before.frame_ok(before.frames@[i]));
            assert(before.frames@[i].level < before.priority(before.frames@[n - 1].task as int));
        }
        assert forall|i: int| 0 <= i < self.timers@.len() implies self.entry_ok(
            #[trigger] self.timers@[i],
        ) by {
            assert(before.entry_ok(before.timers@[i]));
        }
        assert forall|i: int| 0 <= i < self.ready@.len() implies self.entry_ok(
            #[trigger] self.ready@[i],
        ) by {
            assert(before.entry_ok(before.ready@[i]));
        }
    }

    /// Starts a scheduler on a finished table: computes every resource's
    /// ceiling and leaves all tasks idle.
    pub fn new(table: TaskTable) -> (s: Scheduler)
        requires
            table.wf(),
        ensures
            s.wf(),
            s.tasks@ == table.tasks@,
            s.ceilings@.len() == table.resource_count,
            s.latched@ == Seq::new(table.tasks@.len(), |t: int| false),
            s.timers@.len() == 0,
            s.ready@.len() == 0,
            s.frames@.len() == 0,
    {
        let tasks = table.tasks;
        let mut ceilings: Vec<u8> = Vec::new();
        let mut r: usize = 0;
        while r < table.resource_count
            invariant
                r <= table.resource_count,
                ceilings@.len() == r,
                forall|q: int| 0 <= q < r ==> #[trigger] ceilings@[q] == ceiling(tasks@, q as usize),
            decreases table.resource_count - r,
        {
            let c = ceiling_of(&tasks, r);
            ceilings.push(c);
            r = r + 1;
        }
        let mut latched: Vec<bool> = Vec::new();
        let mut t: usize = 0;
        while t < tasks.len()
            invariant
                t <= tasks@.len(),
                latched@ == Seq::new(t as nat, |t: int| false),
            decreases tasks@.len() - t,
        {
            latched.push(false);
            t = t + 1;
            assert(latched@ =~= Seq::new(t as nat, |t: int| false));
        }
        Scheduler {
            tasks,
            ceilings,
            latched,
            timers: Vec::new(),
            ready: Vec::new(),
            frames: Vec::new(),
        }
    }

    /// Reports that interrupt line `line` was asserted. The task bound to it
    /// becomes ready and stays so until it clears the line; asserting a line
    /// that is asserted already changes nothing. Returns the task.
    pub fn raise(&mut self, line: u16) -> (r: Result<usize, SchedError>)
        requires
            old(self).wf(),
        ensures
            final(self).wf(),
            final(self).tasks == old(self).tasks,
            final(self).ceilings == old(self).ceilings,
            final(self).timers == old(self).timers,
            final(self).ready == old(self).ready,
            final(self).frames == old(self).frames,
            !line_taken(old(self).tasks@, line) ==> r == Err::<usize, SchedError>(
                SchedError::UnknownInterrupt,
            ) && final(self).latched == old(self).latched,
            line_taken(old(self).tasks@, line) ==> r is Ok && r->Ok_0 < old(self).tasks@.len()
                && old(self).tasks@[r->Ok_0 as int].bound_to(line) && final(self).latched@ == old(
                self,
            ).latched@.update(r->Ok_0 as int, true),
            r is Ok ==> final(self).state(r->Ok_0) == (if old(self).started(r->Ok_0) {
                TaskState::Running
            } else {
                TaskState::Ready
            }),
    {
        let mut t: usize = 0;
        while t < self.tasks.len()
            invariant
                *self == *old(self),
                self.wf(),
                t <= self.tasks@.len(),
                forall|j: int| 0 <= j < t ==> !(#[trigger] self.tasks@[j]).bound_to(line),
            decreases self.tasks@.len() - t,
        {
            match self.tasks[t].trigger {
                Trigger::HardwareBound(l) => {
                    if l == line {
                        self.latched.set(t, true);
                        return Ok(t);
                    }
                },
                Trigger::TimeBound => {},
            }
            t = t + 1;
        }
        Err(SchedError::UnknownInterrupt)
    }

    /// Sets a deadline for a time-bound task: the task becomes ready once
    /// the clock has reached `instant`. A deadline that has passed already
    /// is kept like any other and released at the next reading of the clock.
    pub fn schedule_at(&mut self, task: usize, instant: Instant) -> (r: Result<(), SchedError>)
        requires
            old(self).wf(),
        ensures
            final(self).wf(),
            final(self).tasks == old(self).tasks,
            final(self).ceilings == old(self).ceilings,
            final(self).latched == old(self).latched,
            final(self).ready == old(self).ready,
            final(self).frames == old(self).frames,
            task >= old(self).tasks@.len() ==> r == Err::<(), SchedError>(SchedError::UnknownTask),
            task < old(self).tasks@.len() && old(self).tasks@[task as int].trigger
                != Trigger::TimeBound ==> r == Err::<(), SchedError>(SchedError::NotTimeBound),
            task < old(self).tasks@.len() && old(self).tasks@[task as int].trigger
                == Trigger::TimeBound ==> r is Ok,
            r is Err ==> final(self).timers == old(self).timers,
            r is Ok ==> final(self).timers@ == old(self).timers@.push(
                TimerEntry { task, deadline: instant },
            ),
            r is Ok ==> final(self).state(task) == (if old(self).started(task) {
                TaskState::Running
            } else if old(self).released(task) {
                TaskState::Ready
            } else {
                TaskState::Armed
            }),
    {
        if task >= self.tasks.len() {
            return Err(SchedError::UnknownTask);
        }
        match self.tasks[task].trigger {
            Trigger::HardwareBound(_) => Err(SchedError::NotTimeBound),
            Trigger::TimeBound => {
                self.timers.push(TimerEntry { task, deadline: instant });
                proof {
                    let last = self.timers@.len() - 1;
                    assert(self.timers@[last].task == task);
                    assert(self.armed(task));
                    assert(!self.line_ready(task as int));
                    assert(self.started(task) == old(self).started(task));
                    assert(self.ready@ == old(self).ready@);
                    assert(self.released(task) == old(self).released(task));
                }
                Ok(())
            },
        }
    }

    /// Reports a reading of the clock. Every deadline that the clock has
    /// reached is released: its entry moves to the end of the ready queue,
    /// in the order the deadlines were set. Returns how many were released.
    pub fn tick(&mut self, now: Instant) -> (released: usize)
        requires
            old(self).wf(),
        ensures
            final(self).wf(),
            final(self).tasks == old(self).tasks,
            final(self).ceilings == old(self).ceilings,
            final(self).latched == old(self).latched,
            final(self).frames == old(self).frames,
            final(self).timers@ == old(self).timers@.filter(pending(now)),
            final(self).ready@ == old(self).ready@ + old(self).timers@.filter(due(now)),
            released == old(self).timers@.filter(due(now)).len(),
    {
        let mut kept: Vec<TimerEntry> = Vec::new();
        let mut released: usize = 0;
        let mut i: usize = 0;
        proof {
            reveal(Seq::filter);
            assert(self.timers@.take(0) =~= Seq::empty());
            assert(self.ready@ =~= old(self).ready@ + old(self).timers@.take(0).filter(due(now)));
        }
        while i < self.timers.len()
            invariant
                old(self).wf(),
                self.tasks == old(self).tasks,
                self.ceilings == old(self).ceilings,
                self.latched == old(self).latched,
                self.frames == old(self).frames,
                self.timers == old(self).timers,
                i <= self.timers@.len(),
                released <= i,
                kept@ == self.timers@.take(i as int).filter(pending(now)),
                self.ready@ == old(self).ready@ + self.timers@.take(i as int).filter(due(now)),
                released == self.timers@.take(i as int).filter(due(now)).len(),
                forall|k: int| 0 <= k < kept@.len() ==> self.entry_ok(#[trigger] kept@[k]),
                forall|k: int| 0 <= k < self.ready@.len() ==> self.entry_ok(#[trigger] self.ready@[k]),
            decreases self.timers@.len() - i,
        {
            let e = self.timers[i];
            proof {
                lemma_filter_step(self.timers@, pending(now), i as int);
                lemma_filter_step(self.timers@, due(now), i as int);
                assert(self.entry_ok(old(self).timers@[i as int]));
            }
            if now.has_reached(e.deadline) {
                self.ready.push(e);
                released = released + 1;
                assert(self.ready@ =~= old(self).ready@ + self.timers@.take(i + 1).filter(due(now)));
            } else {
                kept.push(e);
            }
            i = i + 1;
        }
        proof {
            assert(self.timers@.take(i as int) =~= self.timers@);
        }
        self.timers = kept;
        released
    }

    /// The running task takes the lock on `resource`: the level rises to the
    /// resource's ceiling, unless it is there or higher already, and stays
    /// there until the lock is released. Only a declared resource can be
    /// locked, so no task that could touch the resource can start meanwhile.
    pub fn lock(&mut self, resource: usize) -> (r: Result<(), SchedError>)
        requires
            old(self).wf(),
        ensures
            final(self).wf(),
            final(self).tasks == old(self).tasks,
            final(self).ceilings == old(self).ceilings,
            final(self).latched == old(self).latched,
            final(self).timers == old(self).timers,
            final(self).ready == old(self).ready,
            r == old(self).lock_outcome(resource),
            r is Err ==> final(self).frames == old(self).frames,
            r is Ok ==> {
                let before = old(self).frames@.last();
                let after = final(self).frames@.last();
                &&& final(self).frames@.len() == old(self).frames@.len()
                &&& final(self).frames@.drop_last() == old(self).frames@.drop_last()
                &&& after.same_activation(before)
                &&& after.held@ == before.held@.push(Held { resource, restore: before.level })
                &&& after.level == higher(before.level, old(self).ceilings@[resource as int])
            },
    {
        let n = self.frames.len();
        if n == 0 {
            return Err(SchedError::Idle);
        }
        if !self.frames[n - 1].acknowledged {
            return Err(SchedError::NotAcknowledged);
        }
        let task = self.frames[n - 1].task;
        assert(self.frame_ok(self.frames@[n - 1]));
        if !self.tasks[task].uses(resource) {
            return Err(SchedError::NotDeclared);
        }
        if self.frames[n - 1].has_lock(resource) {
            return Err(SchedError::AlreadyHeld);
        }
        proof {
            let rs = self.tasks@[task as int].resources@;
            let k = choose|k: int| 0 <= k < rs.len() && rs[k] == resource;
            assert(rs[k] < self.ceilings@.len());
        }
        let c = self.ceilings[resource];
        let mut top = self.frames.pop().unwrap();
        let ghost before = top;
        top.held.push(Held { resource, restore: top.level });
        if c > top.level {
            top.level = c;
        }
        self.frames.push(top);
        proof {
            assert(self.frames@.drop_last() =~= old(self).frames@.drop_last());
            self.lemma_frame_locked(before, top, resource);
            self.lemma_top_replaced(old(self));
        }
        Ok(())
    }

    /// The running task releases the lock it took last. The level goes back
    /// to what it was before that lock was taken. Returns the resource.
    pub fn unlock(&mut self) -> (r: Result<usize, SchedError>)
        requires
            old(self).wf(),
        ensures
            final(self).wf(),
            final(self).tasks == old(self).tasks,
            final(self).ceilings == old(self).ceilings,
            final(self).latched == old(self).latched,
            final(self).timers == old(self).timers,
            final(self).ready == old(self).ready,
            old(self).frames@.len() == 0 ==> r == Err::<usize, SchedError>(SchedError::Idle),
            old(self).frames@.len() > 0 && old(self).frames@.last().held@.len() == 0 ==> r == Err::<
                usize,
                SchedError,
            >(SchedError::NoLockHeld),
            old(self).frames@.len() > 0 && old(self).frames@.last().held@.len() > 0 ==> r == Ok::<
                usize,
                SchedError,
            >(old(self).frames@.last().held@.last().resource),
            r is Err ==> final(self).frames == old(self).frames,
            r is Ok ==> {
                let before = old(self).frames@.last();
                let after = final(self).frames@.last();
                &&& final(self).frames@.len() == old(self).frames@.len()
                &&& final(self).frames@.drop_last() == old(self).frames@.drop_last()
                &&& after.same_activation(before)
                &&& after.held@ == before.held@.drop_last()
                &&& after.level == before.held@.last().restore
            },
    {
        let n = self.frames.len();
        if n == 0 {
            return Err(SchedError::Idle);
        }
        if self.frames[n - 1].held.len() == 0 {
            return Err(SchedError::NoLockHeld);
        }
        assert(self.frame_ok(self.frames@[n - 1]));
        let mut top = self.frames.pop().unwrap();
        let ghost before = top;
        let h = top.held.pop().unwrap();
        top.level = h.restore;
        self.frames.push(top);
        proof {
            assert(self.frames@.drop_last() =~= old(self).frames@.drop_last());
            self.lemma_frame_released(before, top);
            self.lemma_top_replaced(old(self));
        }
        Ok(h.resource)
    }

    /// The running task, bound to an interrupt line, clears the line. It has
    /// to do so before anything else: until then `lock` and `complete`
    /// refuse it. A line that is asserted again later makes the task ready
    /// once more.
    pub fn acknowledge(&mut self) -> (r: Result<(), SchedError>)
        requires
            old(self).wf(),
        ensures
            final(self).wf(),
            final(self).tasks == old(self).tasks,
            final(self).ceilings == old(self).ceilings,
            final(self).timers == old(self).timers,
            final(self).ready == old(self).ready,
            old(self).frames@.len() == 0 ==> r == Err::<(), SchedError>(SchedError::Idle),
            old(self).frames@.len() > 0 && old(self).frames@.last().deadline is Some ==> r == Err::<
                (),
                SchedError,
            >(SchedError::NotHardwareBound),
            old(self).frames@.len() > 0 && old(self).frames@.last().deadline is None ==> r is Ok,
            r is Err ==> final(self).frames == old(self).frames && final(self).latched == old(
                self,
            ).latched,
            r is Ok ==> {
                let before = old(self).frames@.last();
                let after = final(self).frames@.last();
                &&& final(self).frames@.len() == old(self).frames@.len()
                &&& final(self).frames@.drop_last() == old(self).frames@.drop_last()
                &&& after.task == before.task
                &&& after.deadline == before.deadline
                &&& after.acknowledged
                &&& after.held == before.held
                &&& after.level == before.level
                &&& final(self).latched@ == old(self).latched@.update(before.task as int, false)
            },
    {
        let n = self.frames.len();
        if n == 0 {
            return Err(SchedError::Idle);
        }
        if self.frames[n - 1].deadline.is_some() {
            return Err(SchedError::NotHardwareBound);
        }
        assert(self.frame_ok(self.frames@[n - 1]));
        let mut top = self.frames.pop().unwrap();
        top.acknowledged = true;
        self.latched.set(top.task, false);
        self.frames.push(top);
        proof {
            assert(self.frames@.drop_last() =~= old(self).frames@.drop_last());
            assert(self.frame_ok(top));
            self.lemma_top_replaced(old(self));
        }
        Ok(())
    }

    /// The running task is done. The task it preempted, if any, is the
    /// running task again. Returns the task that is done.
    pub fn complete(&mut self) -> (r: Result<usize, SchedError>)
        requires
            old(self).wf(),
        ensures
            final(self).wf(),
            final(self).tasks == old(self).tasks,
            final(self).ceilings == old(self).ceilings,
            final(self).latched == old(self).latched,
            final(self).timers == old(self).timers,
            final(self).ready == old(self).ready,
            r == old(self).complete_outcome(),
            r is Err ==> final(self).frames == old(self).frames,
            r is Ok ==> final(self).frames@ == old(self).frames@.drop_last(),
            r is Ok ==> final(self).state(r->Ok_0) == (if final(self).line_ready(r->Ok_0 as int)
                || final(self).released(r->Ok_0) {
                TaskState::Ready
            } else if final(self).armed(r->Ok_0) {
                TaskState::Armed
            } else {
                TaskState::Idle
            }),
    {
        let n = self.frames.len();
        if n == 0 {
            return Err(SchedError::Idle);
        }
        if !self.frames[n - 1].acknowledged {
            return Err(SchedError::NotAcknowledged);
        }
        if self.frames[n - 1].held.len() > 0 {
            return Err(SchedError::LockHeld);
        }
        let top = self.frames.pop().unwrap();
        proof {
            self.lemma_top_popped(old(self));
        }
        Ok(top.task)
    }

    /// The running time-bound task sets its next deadline: one period after
    /// the deadline that released it, whenever it was actually started, so
    /// that a late start does not shift the deadlines that follow. Returns
    /// the new deadline.
    pub fn rearm(&mut self, period: Duration) -> (r: Result<Instant, SchedError>)
        requires
            old(self).wf(),
        ensures
            final(self).wf(),
            final(self).tasks == old(self).tasks,
            final(self).ceilings == old(self).ceilings,
            final(self).latched == old(self).latched,
            final(self).ready == old(self).ready,
            final(self).frames == old(self).frames,
            old(self).frames@.len() == 0 ==> r == Err::<Instant, SchedError>(SchedError::Idle),
            old(self).frames@.len() > 0 && old(self).frames@.last().deadline is None ==> r == Err::<
                Instant,
                SchedError,
            >(SchedError::NotTimeBound),
            old(self).frames@.len() > 0 && old(self).frames@.last().deadline is Some ==> r == Ok::<
                Instant,
                SchedError,
            >(old(self).frames@.last().deadline->Some_0.after(period)),
            r is Err ==> final(self).timers == old(self).timers,
            r is Ok ==> final(self).timers@ == old(self).timers@.push(
                TimerEntry { task: old(self).frames@.last().task, deadline: r->Ok_0 },
            ),
    {
        let n = self.frames.len();
        if n == 0 {
            return Err(SchedError::Idle);
        }
        assert(self.frame_ok(self.frames@[n - 1]));
        match self.frames[n - 1].deadline {
            None => Err(SchedError::NotTimeBound),
            Some(d) => {
                let next = d.plus(period);
                let task = self.frames[n - 1].task;
                self.timers.push(TimerEntry { task, deadline: next });
                Ok(next)
            },
        }
    }

    /// Picks the task to start now, if there is one, and makes it the
    /// running task; the task that ran until now is preempted. A task is
    /// started only if its priority is above the level the system runs at.
    /// Among those, the highest priority wins; at equal priority a
    /// hardware-bound task goes before a time-bound one, a lower-numbered
    /// hardware-bound task before a higher-numbered one, and an earlier
    /// entry of the ready queue before a later one.
    pub fn dispatch(&mut self) -> (r: Option<usize>)
        requires
            old(self).wf(),
        ensures
            final(self).wf(),
            final(self).tasks == old(self).tasks,
            final(self).ceilings == old(self).ceilings,
            final(self).latched == old(self).latched,
            final(self).timers == old(self).timers,
            r is None <==> old(self).nothing_to_start(),
            final(self).nothing_to_start(),
            r is None ==> final(self).frames == old(self).frames && final(self).ready == old(
                self,
            ).ready,
            r is Some ==> final(self).state(r->Some_0) == TaskState::Running,
            r is Some ==> old(self).starts(*final(self), r->Some_0),
    {
        let level = self.current_level();
        let mut line: Option<usize> = None;
        let mut line_level: u8 = level;
        let mut t: usize = 0;
        while t < self.tasks.len()
            invariant
                *self == *old(self),
                self.wf(),
                level == self.level(),
                t <= self.tasks@.len(),
                line is None ==> line_level == level,
                line is Some ==> line->Some_0 < t && self.line_ready(line->Some_0 as int)
                    && self.priority(line->Some_0 as int) == line_level && line_level > level,
                forall|u: int| #[trigger] self.line_ready(u) && u < t ==> self.priority(u) <= line_level,
                line is Some ==> forall|u: int|
                    #[trigger] self.line_ready(u) && u < line->Some_0 ==> self.priority(u)
                        < line_level,
            decreases self.tasks@.len() - t,
        {
            if self.latched[t] && self.tasks[t].priority > line_level {
                line = Some(t);
                line_level = self.tasks[t].priority;
            }
            t = t + 1;
        }
        let mut entry: Option<usize> = None;
        let mut entry_level: u8 = line_level;
        let mut k: usize = 0;
        while k < self.ready.len()
            invariant
                *self == *old(self),
                self.wf(),
                k <= self.ready@.len(),
                line_level >= level,
                entry is None ==> entry_level == line_level,
                entry is Some ==> entry->Some_0 < k && self.entry_priority(entry->Some_0 as int)
                    == entry_level && entry_level > line_level,
                forall|j: int| 0 <= j < k ==> #[trigger] self.entry_priority(j) <= entry_level,
                entry is Some ==> forall|j: int|
                    0 <= j < entry->Some_0 ==> #[trigger] self.entry_priority(j) < entry_level,
            decreases self.ready@.len() - k,
        {
            assert(self.entry_ok(self.ready@[k as int]));
            let p = self.tasks[self.ready[k].task].priority;
            if p > entry_level {
                entry = Some(k);
                entry_level = p;
            }
            k = k + 1;
        }
        match entry {
            Some(q) => {
                assert(self.entry_chosen(q as int));
                assert(self.entry_ok(self.ready@[q as int]));
                let e = self.ready.remove(q);
                self.frames.push(
                    Frame {
                        task: e.task,
                        deadline: Some(e.deadline),
                        acknowledged: true,
                        level: entry_level,
                        held: Vec::new(),
                    },
                );
                proof {
                    assert(self.frames@.drop_last() =~= old(self).frames@);
                    assert forall|i: int| 0 <= i < self.ready@.len() implies self.entry_ok(
                        #[trigger] self.ready@[i],
                    ) by {
                        if i < q {
                            assert(self.ready@[i] == old(self).ready@[i]);
                        } else {
                            assert(self.ready@[i] == old(self).ready@[i + 1]);
                        }
                        assert(old(self).entry_ok(self.ready@[i]));
                    }
                    self.lemma_frame_pushed(old(self));
                    assert(!old(self).nothing_to_start());
                    assert forall|j: int| 0 <= j < self.ready@.len() implies #[trigger] self.entry_priority(
                        j,
                    ) <= self.level() by {
                        if j < q {
                            assert(self.entry_priority(j) == old(self).entry_priority(j));
                        } else {
                            assert(self.entry_priority(j) == old(self).entry_priority(j + 1));
                        }
                    }
                    assert forall|u: int| #[trigger] self.line_ready(u) implies self.priority(u)
                        <= self.level() by {
                        assert(old(self).line_ready(u));
                    }
                }
                Some(e.task)
            },
            None => match line {
                Some(b) => {
                    assert(self.line_chosen(b as int));
                    self.frames.push(
                        Frame {
                            task: b,
                            deadline: None,
                            acknowledged: false,
                            level: line_level,
                            held: Vec::new(),
                        },
                    );
                    proof {
                        assert(self.frames@.drop_last() =~= old(self).frames@);
                        assert forall|i: int| 0 <= i < self.ready@.len() implies self.entry_ok(
                            #[trigger] self.ready@[i],
                        ) by {
                            assert(old(self).entry_ok(old(self).ready@[i]));
                        }
                        self.lemma_frame_pushed(old(self));
                        assert(!old(self).nothing_to_start());
                        assert forall|j: int| 0 <= j < self.ready@.len() implies #[trigger] self.entry_priority(
                            j,
                        ) <= self.level() by {
                            assert(self.entry_priority(j) == old(self).entry_priority(j));
                        }
                        assert forall|u: int| #[trigger] self.line_ready(u) implies self.priority(u)
                            <= self.level() by {
                            assert(old(self).line_ready(u));
                        }
                    }
                    Some(b)
                },
                None => None,
            },
        }
    }

    /// Where a task stands.
    pub fn state_of(&self, task: usize) -> (r: Result<TaskState, SchedError>)
        requires
            self.wf(),
        ensures
            task >= self.tasks@.len() ==> r == Err::<TaskState, SchedError>(SchedError::UnknownTask),
            task < self.tasks@.len() ==> r == Ok::<TaskState, SchedError>(self.state(task)),
    {
        if task >= self.tasks.len() {
            return Err(SchedError::UnknownTask);
        }
        let mut i: usize = 0;
        while i < self.frames.len()
            invariant
                self.wf(),
                task < self.tasks@.len(),
                i <= self.frames@.len(),
                forall|j: int| 0 <= j < i ==> (#[trigger] self.frames@[j]).task != task,
            decreases self.frames@.len() - i,
        {
            if self.frames[i].task == task {
                return Ok(TaskState::Running);
            }
            i = i + 1;
        }
        if self.latched[task] || names(&self.ready, task) {
            Ok(TaskState::Ready)
        } else if names(&self.timers, task) {
            Ok(TaskState::Armed)
        } else {
            Ok(TaskState::Idle)
        }
    }

    /// Whether the running task may touch resource `r` now. It may if it
    /// declared the resource and runs at no less than the resource's
    /// ceiling, be it by its own priority or under a lock, and has cleared
    /// its interrupt line if it has one.
    pub fn check_access(&self, r: usize) -> (res: Result<(), SchedError>)
        requires
            self.wf(),
        ensures
            res == self.access_outcome(r),
            res is Ok <==> self.may_access(self.frames@.len() - 1, r)
                && self.frames@.last().acknowledged,
    {
        let n = self.frames.len();
        if n == 0 {
            return Err(SchedError::Idle);
        }
        if !self.frames[n - 1].acknowledged {
            return Err(SchedError::NotAcknowledged);
        }
        assert(self.frame_ok(self.frames@[n - 1]));
        let task = self.frames[n - 1].task;
        if !self.tasks[task].uses(r) {
            return Err(SchedError::NotDeclared);
        }
        proof {
            let rs = self.tasks@[task as int].resources@;
            let k = choose|k: int| 0 <= k < rs.len() && rs[k] == r;
            assert(rs[k] < self.ceilings@.len());
        }
        if self.frames[n - 1].level < self.ceilings[r] {
            return Err(SchedError::BelowCeiling);
        }
        Ok(())
    }

    /// Decides what the execution context does next. A ready task above
    /// the current level is started, as `dispatch` picks it. A started task
    /// is resumed only when no such task is left, so a preempted task never
    /// goes on while more urgent work is ready.
    pub fn next_action(&mut self) -> (a: Action)
        requires
            old(self).wf(),
        ensures
            final(self).wf(),
            final(self).tasks == old(self).tasks,
            final(self).ceilings == old(self).ceilings,
            final(self).latched == old(self).latched,
            final(self).timers == old(self).timers,
            final(self).nothing_to_start(),
            !old(self).nothing_to_start() ==> a == Action::Start(final(self).frames@.last().task)
                && old(self).starts(*final(self), final(self).frames@.last().task),
            old(self).nothing_to_start() ==> final(self).frames == old(self).frames,
            old(self).nothing_to_start() ==> final(self).ready == old(self).ready,
            old(self).nothing_to_start() && old(self).frames@.len() > 0 ==> a == Action::Resume(
                old(self).frames@.last().task,
            ),
            old(self).nothing_to_start() && old(self).frames@.len() == 0 ==> a == Action::Sleep,
    {
        match self.dispatch() {
            Some(t) => Action::Start(t),
            None => match self.running() {
                Some(t) => Action::Resume(t),
                None => Action::Sleep,
            },
        }
    }

    /// The level the system runs at.
    pub fn current_level(&self) -> (l: u8)
        ensures
            l == self.level(),
    {
        let n = self.frames.len();
        if n == 0 {
            0
        } else {
            self.frames[n - 1].level
        }
    }

    /// The task that runs now, if one does.
    pub fn running(&self) -> (t: Option<usize>)
        ensures
            self.frames@.len() == 0 ==> t is None,
            self.frames@.len() > 0 ==> t == Some(self.frames@.last().task),
    {
        let n = self.frames.len();
        if n == 0 {
            None
        } else {
            Some(self.frames[n - 1].task)
        }
    }
}

} // verus!
