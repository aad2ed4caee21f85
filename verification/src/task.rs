//! Tasks, the resources they declare, and the table that is fixed before the
//! scheduler starts.

use vstd::prelude::*;

verus! {

/// What makes a task ready to run.
#[derive(Clone, Copy, Debug, PartialEq, Eq, Structural)]
pub enum Trigger {
    /// The interrupt line with this number was asserted.
    HardwareBound(u16),
    /// A deadline on the monotonic clock has passed.
    TimeBound,
}

/// Why the table refused a task.
#[derive(Clone, Copy, Debug, PartialEq, Eq, Structural)]
pub enum ConfigError {
    /// Priority 0 belongs to the idle state; tasks start at 1.
    ZeroPriority,
    /// A declared resource does not exist.
    UnknownResource,
    /// Another task is bound to the interrupt line already.
    InterruptTaken,
}

/// A unit of schedulable work. Nothing in it changes once it is in a table.
pub struct Task {
    pub priority: u8,
    pub trigger: Trigger,
    pub resources: Vec<usize>,
}

impl Task {
    /// Whether the task may access resource `r`.
    pub open spec fn declares(&self, r: usize) -> bool {
        self.resources@.contains(r)
    }

    /// Whether the task waits for interrupt line `line`.
    pub open spec fn bound_to(&self, line: u16) -> bool {
        self.trigger == Trigger::HardwareBound(line)
    }

    /// Whether the task may access resource `r`.
    pub fn uses(&self, r: usize) -> (b: bool)
        ensures
            b == self.declares(r),
    {
        let mut i: usize = 0;
        while i < self.resources.len()
            invariant
                i <= self.resources@.len(),
                forall|j: int| 0 <= j < i ==> self.resources@[j] != r,
            decreases self.resources@.len() - i,
        {
            if self.resources[i] == r {
                return true;
            }
            i = i + 1;
        }
        false
    }
}

/// The highest priority among those of the first `n` tasks that declare
/// resource `r`, and 0 if none of them does.
pub open spec fn ceiling_among(tasks: Seq<Task>, r: usize, n: int) -> u8
    decreases n,
{
    if n <= 0 {
        0
    } else {
        let rest = ceiling_among(tasks, r, n - 1);
        if tasks[n - 1].declares(r) && tasks[n - 1].priority > rest {
            tasks[n - 1].priority
        } else {
            rest
        }
    }
}

/// The priority ceiling of resource `r`: the highest priority of any task
/// that declares it.
pub open spec fn ceiling(tasks: Seq<Task>, r: usize) -> u8 {
    ceiling_among(tasks, r, tasks.len() as int)
}

/// The priority ceiling of resource `r` in a list of tasks.
pub fn ceiling_of(tasks: &Vec<Task>, r: usize) -> (c: u8)
    ensures
        c == ceiling(tasks@, r),
{
    let mut c: u8 = 0;
    let mut t: usize = 0;
    while t < tasks.len()
        invariant
            t <= tasks@.len(),
            c == ceiling_among(tasks@, r, t as int),
        decreases tasks@.len() - t,
    {
        if tasks[t].priority > c && tasks[t].uses(r) {
            c = tasks[t].priority;
        }
        t = t + 1;
    }
    c
}

/// No task that declares a resource has a priority above its ceiling.
pub proof fn lemma_ceiling_covers(tasks: Seq<Task>, r: usize, t: int)
    requires
        0 <= t < tasks.len(),
        tasks[t].declares(r),
    ensures
        tasks[t].priority <= ceiling(tasks, r),
{
    lemma_ceiling_among_covers(tasks, r, tasks.len() as int, t);
}

proof fn lemma_ceiling_among_covers(tasks: Seq<Task>, r: usize, n: int, t: int)
    requires
        0 <= t < n <= tasks.len(),
        tasks[t].declares(r),
    ensures
        tasks[t].priority <= ceiling_among(tasks, r, n),
    decreases n,
{
    if t < n - 1 {
        lemma_ceiling_among_covers(tasks, r, n - 1, t);
    }
}

/// The ceiling is no higher than needed: it is the priority of some task
/// that declares the resource, or 0 where no task does.
pub proof fn lemma_ceiling_attained(tasks: Seq<Task>, r: usize)
    ensures
        ceiling(tasks, r) == 0 || exists|t: int|
            0 <= t < tasks.len() && (#[trigger] tasks[t]).declares(r) && tasks[t].priority
                == ceiling(tasks, r),
{
    lemma_ceiling_among_attained(tasks, r, tasks.len() as int);
}

proof fn lemma_ceiling_among_attained(tasks: Seq<Task>, r: usize, n: int)
    requires
        n <= tasks.len(),
    ensures
        ceiling_among(tasks, r, n) == 0 || exists|t: int|
            0 <= t < n && (#[trigger] tasks[t]).declares(r) && tasks[t].priority == ceiling_among(
                tasks,
                r,
                n,
            ),
    decreases n,
{
    if n > 0 {
        lemma_ceiling_among_attained(tasks, r, n - 1);
        let rest = ceiling_among(tasks, r, n - 1);
        if tasks[n - 1].declares(r) && tasks[n - 1].priority > rest {
            assert(tasks[n - 1].declares(r));
        } else if rest != 0 {
            let t = choose|t: int|
                0 <= t < n - 1 && (#[trigger] tasks[t]).declares(r) && tasks[t].priority == rest;
            assert(tasks[t].declares(r));
        }
    }
}

/// Every resource in the list exists.
pub open spec fn resources_known(resources: Seq<usize>, resource_count: usize) -> bool {
    forall|k: int| 0 <= k < resources.len() ==> #[trigger] resources[k] < resource_count
}

/// Some task is bound to interrupt line `line`.
pub open spec fn line_taken(tasks: Seq<Task>, line: u16) -> bool {
    exists|t: int| 0 <= t < tasks.len() && (#[trigger] tasks[t]).bound_to(line)
}

/// What holds of every table: priorities start at 1, declared resources
/// exist, and no interrupt line has two tasks.
pub open spec fn tasks_valid(tasks: Seq<Task>, resource_count: usize) -> bool {
    &&& forall|t: int| 0 <= t < tasks.len() ==> (#[trigger] tasks[t]).priority >= 1
    &&& forall|t: int|
        0 <= t < tasks.len() ==> resources_known(
            (#[trigger] tasks[t]).resources@,
            resource_count,
        )
    &&& forall|a: int, b: int|
        0 <= a < tasks.len() && 0 <= b < tasks.len() && a != b && (#[trigger] tasks[a]).trigger
            != Trigger::TimeBound ==> tasks[a].trigger != (#[trigger] tasks[b]).trigger
}

/// The tasks of a system and the number of its resources, collected before
/// the scheduler starts. Tasks are numbered in the order they were added.
pub struct TaskTable {
    pub tasks: Vec<Task>,
    pub resource_count: usize,
}

impl TaskTable {
    /// What holds of every table that `bind` and `timed` have built.
    pub open spec fn wf(&self) -> bool {
        tasks_valid(self.tasks@, self.resource_count)
    }

    /// An empty table for a system with `resource_count` resources, which
    /// are numbered from 0.
    pub fn new(resource_count: usize) -> (table: TaskTable)
        ensures
            table.wf(),
            table.tasks@.len() == 0,
            table.resource_count == resource_count,
    {
        TaskTable { tasks: Vec::new(), resource_count }
    }

    /// Whether every resource in the list exists.
    fn knows(&self, resources: &Vec<usize>) -> (b: bool)
        ensures
            b == resources_known(resources@, self.resource_count),
    {
        let mut k: usize = 0;
        while k < resources.len()
            invariant
                k <= resources@.len(),
                forall|j: int| 0 <= j < k ==> #[trigger] resources@[j] < self.resource_count,
            decreases resources@.len() - k,
        {
            if resources[k] >= self.resource_count {
                return false;
            }
            k = k + 1;
        }
        true
    }

    /// Whether some task is bound to the line.
    fn taken(&self, line: u16) -> (b: bool)
        ensures
            b == line_taken(self.tasks@, line),
    {
        let mut t: usize = 0;
        while t < self.tasks.len()
            invariant
                t <= self.tasks@.len(),
                forall|j: int| 0 <= j < t ==> !(#[trigger] self.tasks@[j]).bound_to(line),
            decreases self.tasks@.len() - t,
        {
            match self.tasks[t].trigger {
                Trigger::HardwareBound(l) => {
                    if l == line {
                        return true;
                    }
                },
                Trigger::TimeBound => {},
            }
            t = t + 1;
        }
        false
    }

    /// Adds a task that runs whenever interrupt line `interrupt` is asserted
    /// and returns its number.
    pub fn bind(&mut self, priority: u8, resources: Vec<usize>, interrupt: u16) -> (r: Result<
        usize,
        ConfigError,
    >)
        requires
            old(self).wf(),
        ensures
            final(self).wf(),
            final(self).resource_count == old(self).resource_count,
            priority == 0 ==> r == Err::<usize, ConfigError>(ConfigError::ZeroPriority),
            priority != 0 && !resources_known(resources@, old(self).resource_count) ==> r == Err::<
                usize,
                ConfigError,
            >(ConfigError::UnknownResource),
            priority != 0 && resources_known(resources@, old(self).resource_count) && line_taken(
                old(self).tasks@,
                interrupt,
            ) ==> r == Err::<usize, ConfigError>(ConfigError::InterruptTaken),
            priority != 0 && resources_known(resources@, old(self).resource_count) && !line_taken(
                old(self).tasks@,
                interrupt,
            ) ==> r == Ok::<usize, ConfigError>(old(self).tasks@.len() as usize),
            r.is_err() ==> final(self).tasks@ == old(self).tasks@,
            r.is_ok() ==> final(self).tasks@ == old(self).tasks@.push(
                Task { priority, trigger: Trigger::HardwareBound(interrupt), resources },
            ),
    {
        if priority == 0 {
            return Err(ConfigError::ZeroPriority);
        }
        if !self.knows(&resources) {
            return Err(ConfigError::UnknownResource);
        }
        if self.taken(interrupt) {
            return Err(ConfigError::InterruptTaken);
        }
        let id = self.tasks.len();
        self.tasks.push(Task { priority, trigger: Trigger::HardwareBound(interrupt), resources });
        Ok(id)
    }

    /// Adds a task that runs when a deadline has passed and returns its
    /// number. The deadline itself is given to the scheduler.
    pub fn timed(&mut self, priority: u8, resources: Vec<usize>) -> (r: Result<usize, ConfigError>)
        requires
            old(self).wf(),
        ensures
            final(self).wf(),
            final(self).resource_count == old(self).resource_count,
            priority == 0 ==> r == Err::<usize, ConfigError>(ConfigError::ZeroPriority),
            priority != 0 && !resources_known(resources@, old(self).resource_count) ==> r == Err::<
                usize,
                ConfigError,
            >(ConfigError::UnknownResource),
            priority != 0 && resources_known(resources@, old(self).resource_count) ==> r == Ok::<
                usize,
                ConfigError,
            >(old(self).tasks@.len() as usize),
            r.is_err() ==> final(self).tasks@ == old(self).tasks@,
            r.is_ok() ==> final(self).tasks@ == old(self).tasks@.push(
                Task { priority, trigger: Trigger::TimeBound, resources },
            ),
    {
        if priority == 0 {
            return Err(ConfigError::ZeroPriority);
        }
        if !self.knows(&resources) {
            return Err(ConfigError::UnknownResource);
        }
        let id = self.tasks.len();
        self.tasks.push(Task { priority, trigger: Trigger::TimeBound, resources });
        Ok(id)
    }
}

} // verus!
