//! What the priority-ceiling protocol guarantees in every state the
//! scheduler can reach: a task that could touch a held resource does not
//! start, so critical sections on one resource never interleave.

use vstd::prelude::*;
use crate::scheduler::Scheduler;
use crate::task::lemma_ceiling_covers;

verus! {

/// A started task runs at no less than the ceiling of every resource it
/// holds.
pub proof fn lemma_holder_at_ceiling(s: &Scheduler, i: int, r: usize)
    requires
        s.wf(),
        0 <= i < s.frames@.len(),
        s.frames@[i].holds(r),
    ensures
        r < s.ceilings@.len(),
        s.ceilings@[r as int] <= s.frames@[i].level,
{
    let f = s.frames@[i];
    assert(s.frame_ok(f));
    let k = choose|k: int| 0 <= k < f.held@.len() && (#[trigger] f.held@[k]).resource == r;
    assert(f.held@[k].resource == r);
}

/// The level only rises up the stack of started tasks: the system runs at
/// no less than the level of any started task.
pub proof fn lemma_level_covers(s: &Scheduler, i: int)
    requires
        s.wf(),
        0 <= i < s.frames@.len(),
    ensures
        s.frames@[i].level <= s.level(),
{
    let n = s.frames@.len() as int;
    if i < n - 1 {
        assert(s.frames@[i].level < s.priority(s.frames@[n - 1].task as int));
        assert(s.frame_ok(s.frames@[n - 1]));
    }
}

/// While a started task holds resource `r`, no task that declares `r` has a
/// priority above the level the system runs at, so none of them can start,
/// whatever interrupts and deadlines arrive meanwhile.
pub proof fn lemma_blocked_while_held(s: &Scheduler, i: int, r: usize, t: int)
    requires
        s.wf(),
        0 <= i < s.frames@.len(),
        s.frames@[i].holds(r),
        0 <= t < s.tasks@.len(),
        s.tasks@[t].declares(r),
    ensures
        s.priority(t) <= s.level(),
        !s.line_chosen(t),
        forall|k: int| 0 <= k < s.ready@.len() && s.ready@[k].task == t ==> !s.entry_chosen(k),
{
    lemma_holder_at_ceiling(s, i, r);
    lemma_level_covers(s, i);
    lemma_ceiling_covers(s.tasks@, r, t);
    assert(s.ceilings@[r as int] == crate::task::ceiling(s.tasks@, r));
}

/// While a started task holds resource `r`, no task started after it
/// declares `r`: a task of higher priority never sees the resource in the
/// middle of an update by a task of lower priority.
pub proof fn lemma_holder_excludes(s: &Scheduler, i: int, j: int, r: usize)
    requires
        s.wf(),
        0 <= i < j < s.frames@.len(),
        s.frames@[i].holds(r),
    ensures
        !s.tasks@[s.frames@[j].task as int].declares(r),
{
    let t = s.frames@[j].task as int;
    assert(s.frame_ok(s.frames@[j]));
    if s.tasks@[t].declares(r) {
        lemma_holder_at_ceiling(s, i, r);
        lemma_ceiling_covers(s.tasks@, r, t);
        assert(s.ceilings@[r as int] == crate::task::ceiling(s.tasks@, r));
        assert(s.frames@[i].level < s.priority(s.frames@[j].task as int));
    }
}

/// At most one started task may touch a resource at any time: while one
/// runs at or above the resource's ceiling, every task started after it has
/// a priority above that ceiling and so did not declare the resource, and
/// every task started before it runs below the ceiling.
pub proof fn lemma_access_exclusive(s: &Scheduler, i: int, j: int, r: usize)
    requires
        s.wf(),
        s.may_access(i, r),
        s.may_access(j, r),
    ensures
        i == j,
{
    let lo = if i < j {
        i
    } else {
        j
    };
    let hi = if i < j {
        j
    } else {
        i
    };
    if lo < hi {
        let t = s.frames@[hi].task as int;
        assert(s.frame_ok(s.frames@[hi]));
        lemma_ceiling_covers(s.tasks@, r, t);
        assert(s.ceilings@[r as int] == crate::task::ceiling(s.tasks@, r));
        assert(s.frames@[lo].level < s.priority(s.frames@[hi].task as int));
    }
}

/// A task that holds a resource may touch it.
pub proof fn lemma_holder_may_access(s: &Scheduler, i: int, r: usize)
    requires
        s.wf(),
        0 <= i < s.frames@.len(),
        s.frames@[i].holds(r),
    ensures
        s.may_access(i, r),
{
    lemma_holder_at_ceiling(s, i, r);
    lemma_holds_declared(s, i, r);
}

/// A resource has at most one holder among the started tasks.
pub proof fn lemma_one_holder(s: &Scheduler, i: int, j: int, r: usize)
    requires
        s.wf(),
        0 <= i < s.frames@.len(),
        0 <= j < s.frames@.len(),
        s.frames@[i].holds(r),
        s.frames@[j].holds(r),
    ensures
        i == j,
{
    if i < j {
        lemma_holder_excludes(s, i, j, r);
        lemma_holds_declared(s, j, r);
    } else if j < i {
        lemma_holder_excludes(s, j, i, r);
        lemma_holds_declared(s, i, r);
    }
}

/// A task holds only resources that it declared.
pub proof fn lemma_holds_declared(s: &Scheduler, i: int, r: usize)
    requires
        s.wf(),
        0 <= i < s.frames@.len(),
        s.frames@[i].holds(r),
    ensures
        s.tasks@[s.frames@[i].task as int].declares(r),
{
    let f = s.frames@[i];
    assert(s.frame_ok(f));
    let k = choose|k: int| 0 <= k < f.held@.len() && (#[trigger] f.held@[k]).resource == r;
    assert(f.held@[k].resource == r);
}

/// Nothing waits while the system is idle: with no task started, any ready
/// task is started by the next dispatch.
pub proof fn lemma_idle_starts_ready(s: &Scheduler)
    requires
        s.wf(),
        s.frames@.len() == 0,
        s.ready@.len() > 0 || exists|t: int| s.line_ready(t),
    ensures
        !s.nothing_to_start(),
{
    if s.ready@.len() > 0 {
        assert(s.entry_ok(s.ready@[0]));
        assert(s.entry_priority(0) >= 1);
    } else {
        let t = choose|t: int| s.line_ready(t);
        assert(s.line_ready(t));
        assert(s.tasks@[t].priority >= 1);
    }
}

/// Strict priority preemption: each started task has a higher priority than
/// the task it preempted, so the running task has the highest priority of
/// all started tasks and no task is started twice.
pub proof fn lemma_preemption_ordered(s: &Scheduler, i: int, j: int)
    requires
        s.wf(),
        0 <= i < j < s.frames@.len(),
    ensures
        s.priority(s.frames@[i].task as int) < s.priority(s.frames@[j].task as int),
        s.frames@[i].task != s.frames@[j].task,
{
    assert(s.frame_ok(s.frames@[i]));
    assert(s.frames@[i].level < s.priority(s.frames@[j].task as int));
}

} // verus!
