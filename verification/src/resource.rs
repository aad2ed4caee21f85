//! A piece of shared state that can only be reached through the scheduler:
//! the running task gets at it while it runs at or above the resource's
//! ceiling, and nobody else does.

use vstd::prelude::*;
use crate::scheduler::{SchedError, Scheduler};

verus! {

/// A value shared by tasks of different priority.
pub struct Resource<T> {
    id: usize,
    value: T,
}

impl<T> Resource<T> {
    /// The resource's number in the task table.
    pub closed spec fn number(&self) -> usize {
        self.id
    }

    /// What the resource holds.
    pub closed spec fn content(&self) -> T {
        self.value
    }

    /// Resource number `id` with `value` in it.
    pub fn new(id: usize, value: T) -> (r: Self)
        ensures
            r.number() == id,
            r.content() == value,
    {
        Resource { id, value }
    }

    /// The resource's number in the task table.
    pub fn id(&self) -> (id: usize)
        ensures
            id == self.number(),
    {
        self.id
    }

    /// Reads the resource on behalf of the running task.
    pub fn read<'a>(&'a self, s: &Scheduler) -> (r: Result<&'a T, SchedError>)
        requires
            s.wf(),
        ensures
            r is Ok <==> s.access_outcome(self.number()) is Ok,
            r matches Ok(v) ==> *v == self.content(),
            r matches Err(e) ==> s.access_outcome(self.number()) == Err::<(), SchedError>(e),
    {
        match s.check_access(self.id) {
            Ok(()) => Ok(&self.value),
            Err(e) => Err(e),
        }
    }

    /// Runs `update` on the resource under its lock, on behalf of the
    /// running task: takes the lock, replaces the content by what `update`
    /// makes of it, and releases the lock, so that the task runs at the level
    /// it had before. A refused lock leaves resource and scheduler as they
    /// were.
    pub fn lock<F: FnOnce(&T) -> T>(&mut self, s: &mut Scheduler, update: F) -> (r: Result<
        (),
        SchedError,
    >)
        requires
            old(s).wf(),
            call_requires(update, (&old(self).content(),)),
        ensures
            final(s).wf(),
            r == old(s).lock_outcome(old(self).number()),
            final(self).number() == old(self).number(),
            r is Ok ==> call_ensures(update, (&old(self).content(),), final(self).content()),
            r is Err ==> final(self).content() == old(self).content(),
            final(s).tasks == old(s).tasks,
            final(s).ceilings == old(s).ceilings,
            final(s).latched == old(s).latched,
            final(s).timers == old(s).timers,
            final(s).ready == old(s).ready,
            r is Err ==> final(s).frames == old(s).frames,
            r is Ok ==> {
                let before = old(s).frames@.last();
                let after = final(s).frames@.last();
                &&& final(s).frames@.len() == old(s).frames@.len()
                &&& final(s).frames@.drop_last() == old(s).frames@.drop_last()
                &&& after.same_activation(before)
                &&& after.held@ == before.held@
                &&& after.level == before.level
            },
    {
        match s.lock(self.id) {
            Err(e) => Err(e),
            Ok(()) => {
                let value = update(&self.value);
                self.value = value;
                let ghost locked = s.frames@.last().held@;
                let released = s.unlock();
                assert(locked.drop_last() =~= old(s).frames@.last().held@);
                Ok(())
            },
        }
    }

    /// Overwrites the resource on behalf of the running task. A refused
    /// write leaves the resource as it was.
    pub fn write(&mut self, s: &Scheduler, value: T) -> (r: Result<(), SchedError>)
        requires
            s.wf(),
        ensures
            r == s.access_outcome(old(self).number()),
            final(self).number() == old(self).number(),
            r is Ok ==> final(self).content() == value,
            r is Err ==> final(self).content() == old(self).content(),
    {
        match s.check_access(self.id) {
            Ok(()) => {
                self.value = value;
                Ok(())
            },
            Err(e) => Err(e),
        }
    }
}

} // verus!
