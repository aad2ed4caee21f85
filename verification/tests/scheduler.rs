use rtic_stm32::clock::{Duration, Instant};
use rtic_stm32::resource::Resource;
use rtic_stm32::scheduler::{Action, SchedError, Scheduler, TaskState, TimerEntry};
use rtic_stm32::task::{ceiling_of, ConfigError, Task, TaskTable, Trigger};

const TIMER_LINE: u16 = 55;
const BUTTON_LINE: u16 = 40;

const PWM: usize = 0;
const DELTA: usize = 1;
const CUR: usize = 2;
const STRIP: usize = 3;

fn at(ticks: u32) -> Instant {
    Instant { ticks }
}

/// Task 0: tick, priority 3, on the timer line. Task 1: button, priority 2.
/// Task 2: display refresh, priority 1, time-bound. Task 3: strip refresh,
/// priority 3, time-bound.
fn demo() -> Scheduler {
    let mut table = TaskTable::new(4);
    assert_eq!(table.bind(3, vec![PWM, CUR, DELTA], TIMER_LINE), Ok(0));
    assert_eq!(table.bind(2, vec![DELTA], BUTTON_LINE), Ok(1));
    assert_eq!(table.timed(1, vec![CUR, DELTA]), Ok(2));
    assert_eq!(table.timed(3, vec![STRIP]), Ok(3));
    Scheduler::new(table)
}

#[test]
fn table_refuses_bad_tasks() {
    let mut table = TaskTable::new(2);
    assert_eq!(table.bind(0, vec![0], 1), Err(ConfigError::ZeroPriority));
    assert_eq!(table.timed(0, vec![]), Err(ConfigError::ZeroPriority));
    assert_eq!(table.bind(1, vec![0, 2], 1), Err(ConfigError::UnknownResource));
    assert_eq!(table.timed(1, vec![2]), Err(ConfigError::UnknownResource));
    assert_eq!(table.bind(0, vec![9], 1), Err(ConfigError::ZeroPriority));
    assert_eq!(table.tasks.len(), 0);
    assert_eq!(table.bind(1, vec![0], 7), Ok(0));
    assert_eq!(table.bind(2, vec![1], 7), Err(ConfigError::InterruptTaken));
    assert_eq!(table.bind(2, vec![1], 8), Ok(1));
    assert_eq!(table.timed(255, vec![0, 1, 0]), Ok(2));
    assert_eq!(table.tasks.len(), 3);
    assert_eq!(table.tasks[0].trigger, Trigger::HardwareBound(7));
    assert_eq!(table.tasks[1].priority, 2);
    assert_eq!(table.tasks[2].trigger, Trigger::TimeBound);
    assert_eq!(table.tasks[2].resources, vec![0, 1, 0]);
}

#[test]
fn ceilings_are_the_highest_declaring_priority() {
    let s = demo();
    assert_eq!(s.ceilings, vec![3, 3, 3, 3]);
    let mut table = TaskTable::new(3);
    assert_eq!(table.timed(1, vec![0]), Ok(0));
    assert_eq!(table.timed(4, vec![0, 1]), Ok(1));
    assert_eq!(table.timed(2, vec![1]), Ok(2));
    assert_eq!(ceiling_of(&table.tasks, 0), 4);
    assert_eq!(ceiling_of(&table.tasks, 1), 4);
    assert_eq!(ceiling_of(&table.tasks, 2), 0);
    let s = Scheduler::new(table);
    assert_eq!(s.ceilings, vec![4, 4, 0]);
    assert_eq!(s.current_level(), 0);
    assert_eq!(s.running(), None);
}

#[test]
fn task_declares_what_it_lists() {
    let t = Task { priority: 1, trigger: Trigger::TimeBound, resources: vec![4, 2] };
    assert!(t.uses(4));
    assert!(t.uses(2));
    assert!(!t.uses(0));
    assert!(!t.uses(3));
}

#[test]
fn idle_scheduler_refuses_task_requests() {
    let mut s = demo();
    assert_eq!(s.dispatch(), None);
    assert_eq!(s.lock(DELTA), Err(SchedError::Idle));
    assert_eq!(s.unlock(), Err(SchedError::Idle));
    assert_eq!(s.acknowledge(), Err(SchedError::Idle));
    assert_eq!(s.complete(), Err(SchedError::Idle));
    assert_eq!(s.rearm(Duration { ticks: 10 }), Err(SchedError::Idle));
    assert_eq!(s.state_of(0), Ok(TaskState::Idle));
    assert_eq!(s.state_of(4), Err(SchedError::UnknownTask));
}

#[test]
fn raise_finds_the_bound_task() {
    let mut s = demo();
    assert_eq!(s.raise(9), Err(SchedError::UnknownInterrupt));
    assert_eq!(s.latched, vec![false, false, false, false]);
    assert_eq!(s.raise(BUTTON_LINE), Ok(1));
    assert_eq!(s.latched, vec![false, true, false, false]);
    assert_eq!(s.raise(BUTTON_LINE), Ok(1));
    assert_eq!(s.latched, vec![false, true, false, false]);
    assert_eq!(s.state_of(1), Ok(TaskState::Ready));
    assert_eq!(s.raise(TIMER_LINE), Ok(0));
    assert_eq!(s.latched, vec![true, true, false, false]);
}

#[test]
fn schedule_at_takes_time_bound_tasks_only() {
    let mut s = demo();
    assert_eq!(s.schedule_at(4, at(0)), Err(SchedError::UnknownTask));
    assert_eq!(s.schedule_at(0, at(0)), Err(SchedError::NotTimeBound));
    assert_eq!(s.schedule_at(1, at(0)), Err(SchedError::NotTimeBound));
    assert!(s.timers.is_empty());
    assert_eq!(s.schedule_at(2, at(500)), Ok(()));
    assert_eq!(s.schedule_at(3, at(100)), Ok(()));
    assert_eq!(
        s.timers,
        vec![
            TimerEntry { task: 2, deadline: at(500) },
            TimerEntry { task: 3, deadline: at(100) }
        ]
    );
    assert_eq!(s.state_of(2), Ok(TaskState::Armed));
    assert_eq!(s.state_of(3), Ok(TaskState::Armed));
}

#[test]
fn tick_releases_what_is_due_in_the_order_it_was_set() {
    let mut s = demo();
    assert_eq!(s.schedule_at(2, at(500)), Ok(()));
    assert_eq!(s.schedule_at(3, at(100)), Ok(()));
    assert_eq!(s.schedule_at(2, at(50)), Ok(()));
    assert_eq!(s.tick(at(49)), 0);
    assert_eq!(s.timers.len(), 3);
    assert!(s.ready.is_empty());
    assert_eq!(s.tick(at(100)), 2);
    assert_eq!(s.timers, vec![TimerEntry { task: 2, deadline: at(500) }]);
    assert_eq!(
        s.ready,
        vec![
            TimerEntry { task: 3, deadline: at(100) },
            TimerEntry { task: 2, deadline: at(50) }
        ]
    );
    assert_eq!(s.state_of(2), Ok(TaskState::Ready));
    assert_eq!(s.tick(at(100)), 0);
    assert_eq!(s.tick(at(10_000)), 1);
    assert!(s.timers.is_empty());
    assert_eq!(s.ready.len(), 3);
    assert_eq!(s.ready[2], TimerEntry { task: 2, deadline: at(500) });
}

#[test]
fn a_deadline_in_the_past_still_runs() {
    let mut s = demo();
    assert_eq!(s.schedule_at(2, at(0xffff_ff00)), Ok(()));
    assert_eq!(s.tick(at(0x20)), 1);
    assert_eq!(s.dispatch(), Some(2));
    assert_eq!(s.state_of(2), Ok(TaskState::Running));
    assert_eq!(s.frames[0].deadline, Some(at(0xffff_ff00)));
}

#[test]
fn a_deadline_ahead_across_the_wrap_waits() {
    let mut s = demo();
    assert_eq!(s.schedule_at(2, at(0x20)), Ok(()));
    assert_eq!(s.tick(at(0xffff_ff00)), 0);
    assert_eq!(s.dispatch(), None);
    assert_eq!(s.tick(at(0x1f)), 0);
    assert_eq!(s.tick(at(0x20)), 1);
    assert_eq!(s.dispatch(), Some(2));
}

#[test]
fn dispatch_prefers_priority_then_hardware_then_queue_order() {
    let mut table = TaskTable::new(0);
    assert_eq!(table.timed(2, vec![]), Ok(0));
    assert_eq!(table.timed(5, vec![]), Ok(1));
    assert_eq!(table.timed(5, vec![]), Ok(2));
    assert_eq!(table.bind(5, vec![], 1), Ok(3));
    assert_eq!(table.bind(5, vec![], 2), Ok(4));
    assert_eq!(table.bind(9, vec![], 3), Ok(5));
    assert_eq!(table.timed(9, vec![]), Ok(6));
    let mut s = Scheduler::new(table);
    assert_eq!(s.schedule_at(0, at(1)), Ok(()));
    assert_eq!(s.schedule_at(2, at(3)), Ok(()));
    assert_eq!(s.schedule_at(1, at(2)), Ok(()));
    assert_eq!(s.schedule_at(6, at(4)), Ok(()));
    assert_eq!(s.raise(2), Ok(4));
    assert_eq!(s.raise(1), Ok(3));
    assert_eq!(s.raise(3), Ok(5));
    assert_eq!(s.tick(at(10)), 4);
    let mut order: Vec<usize> = Vec::new();
    while let Some(t) = s.dispatch() {
        order.push(t);
        if s.frames[s.frames.len() - 1].deadline.is_none() {
            assert_eq!(s.acknowledge(), Ok(()));
        }
        assert_eq!(s.complete(), Ok(t));
    }
    assert_eq!(order, vec![5, 6, 3, 4, 2, 1, 0]);
    assert_eq!(s.running(), None);
    for t in 0..7usize {
        assert_eq!(s.state_of(t), Ok(TaskState::Idle));
    }
}

#[test]
fn higher_priority_preempts_and_lower_resumes_after() {
    let mut s = demo();
    assert_eq!(s.schedule_at(2, at(0)), Ok(()));
    assert_eq!(s.tick(at(0)), 1);
    assert_eq!(s.dispatch(), Some(2));
    assert_eq!(s.current_level(), 1);
    assert_eq!(s.dispatch(), None);
    assert_eq!(s.raise(BUTTON_LINE), Ok(1));
    assert_eq!(s.dispatch(), Some(1));
    assert_eq!(s.current_level(), 2);
    assert_eq!(s.running(), Some(1));
    assert_eq!(s.state_of(2), Ok(TaskState::Running));
    assert_eq!(s.raise(TIMER_LINE), Ok(0));
    assert_eq!(s.dispatch(), Some(0));
    assert_eq!(s.current_level(), 3);
    assert_eq!(s.frames.len(), 3);
    assert_eq!(s.dispatch(), None);
    assert_eq!(s.acknowledge(), Ok(()));
    assert_eq!(s.complete(), Ok(0));
    assert_eq!(s.running(), Some(1));
    assert_eq!(s.dispatch(), None);
    assert_eq!(s.acknowledge(), Ok(()));
    assert_eq!(s.complete(), Ok(1));
    assert_eq!(s.running(), Some(2));
    assert_eq!(s.current_level(), 1);
    assert_eq!(s.complete(), Ok(2));
    assert_eq!(s.running(), None);
    assert_eq!(s.current_level(), 0);
}

#[test]
fn equal_priority_does_not_preempt() {
    let mut s = demo();
    assert_eq!(s.raise(TIMER_LINE), Ok(0));
    assert_eq!(s.dispatch(), Some(0));
    assert_eq!(s.acknowledge(), Ok(()));
    assert_eq!(s.schedule_at(3, at(0)), Ok(()));
    assert_eq!(s.tick(at(0)), 1);
    assert_eq!(s.dispatch(), None);
    assert_eq!(s.state_of(3), Ok(TaskState::Ready));
    assert_eq!(s.complete(), Ok(0));
    assert_eq!(s.dispatch(), Some(3));
}

#[test]
fn hardware_task_must_clear_its_line_first() {
    let mut s = demo();
    assert_eq!(s.raise(BUTTON_LINE), Ok(1));
    assert_eq!(s.dispatch(), Some(1));
    assert_eq!(s.lock(DELTA), Err(SchedError::NotAcknowledged));
    assert_eq!(s.complete(), Err(SchedError::NotAcknowledged));
    assert_eq!(s.state_of(1), Ok(TaskState::Running));
    assert_eq!(s.latched[1], true);
    assert_eq!(s.acknowledge(), Ok(()));
    assert_eq!(s.latched[1], false);
    assert_eq!(s.lock(DELTA), Ok(()));
    assert_eq!(s.unlock(), Ok(DELTA));
    assert_eq!(s.complete(), Ok(1));
    assert_eq!(s.dispatch(), None);
    assert_eq!(s.state_of(1), Ok(TaskState::Idle));
}

#[test]
fn a_line_asserted_again_runs_the_task_again() {
    let mut s = demo();
    assert_eq!(s.raise(BUTTON_LINE), Ok(1));
    assert_eq!(s.dispatch(), Some(1));
    assert_eq!(s.acknowledge(), Ok(()));
    assert_eq!(s.raise(BUTTON_LINE), Ok(1));
    assert_eq!(s.dispatch(), None);
    assert_eq!(s.state_of(1), Ok(TaskState::Running));
    assert_eq!(s.complete(), Ok(1));
    assert_eq!(s.state_of(1), Ok(TaskState::Ready));
    assert_eq!(s.dispatch(), Some(1));
}

#[test]
fn time_bound_task_has_no_line_to_clear() {
    let mut s = demo();
    assert_eq!(s.schedule_at(2, at(0)), Ok(()));
    assert_eq!(s.tick(at(0)), 1);
    assert_eq!(s.dispatch(), Some(2));
    assert_eq!(s.acknowledge(), Err(SchedError::NotHardwareBound));
    assert_eq!(s.complete(), Ok(2));
}

#[test]
fn hardware_task_cannot_rearm() {
    let mut s = demo();
    assert_eq!(s.raise(BUTTON_LINE), Ok(1));
    assert_eq!(s.dispatch(), Some(1));
    assert_eq!(s.rearm(Duration { ticks: 5 }), Err(SchedError::NotTimeBound));
    assert!(s.timers.is_empty());
}

#[test]
fn lock_raises_to_the_ceiling_and_unlock_restores() {
    let mut table = TaskTable::new(3);
    assert_eq!(table.timed(1, vec![0, 1, 2]), Ok(0));
    assert_eq!(table.timed(4, vec![0]), Ok(1));
    assert_eq!(table.timed(2, vec![1]), Ok(2));
    assert_eq!(table.timed(6, vec![]), Ok(3));
    let mut s = Scheduler::new(table);
    assert_eq!(s.ceilings, vec![4, 2, 1]);
    assert_eq!(s.schedule_at(0, at(0)), Ok(()));
    assert_eq!(s.tick(at(0)), 1);
    assert_eq!(s.dispatch(), Some(0));
    assert_eq!(s.current_level(), 1);
    assert_eq!(s.unlock(), Err(SchedError::NoLockHeld));
    assert_eq!(s.lock(3), Err(SchedError::NotDeclared));
    assert_eq!(s.lock(1), Ok(()));
    assert_eq!(s.current_level(), 2);
    assert_eq!(s.lock(1), Err(SchedError::AlreadyHeld));
    assert_eq!(s.lock(0), Ok(()));
    assert_eq!(s.current_level(), 4);
    assert_eq!(s.lock(2), Ok(()));
    assert_eq!(s.current_level(), 4);
    assert_eq!(s.complete(), Err(SchedError::LockHeld));
    assert_eq!(s.unlock(), Ok(2));
    assert_eq!(s.current_level(), 4);
    assert_eq!(s.unlock(), Ok(0));
    assert_eq!(s.current_level(), 2);
    assert_eq!(s.unlock(), Ok(1));
    assert_eq!(s.current_level(), 1);
    assert_eq!(s.unlock(), Err(SchedError::NoLockHeld));
    assert_eq!(s.complete(), Ok(0));
}

#[test]
fn lock_refuses_an_undeclared_resource() {
    let mut s = demo();
    assert_eq!(s.raise(BUTTON_LINE), Ok(1));
    assert_eq!(s.dispatch(), Some(1));
    assert_eq!(s.acknowledge(), Ok(()));
    assert_eq!(s.lock(CUR), Err(SchedError::NotDeclared));
    assert_eq!(s.lock(99), Err(SchedError::NotDeclared));
    assert_eq!(s.current_level(), 2);
    assert!(s.frames[0].held.is_empty());
}

/// The low task updates a two-part value under lock while interrupts for
/// every task that shares it arrive at the worst moment. No reader ever
/// sees the two parts disagree.
#[test]
fn no_task_sees_a_half_updated_resource() {
    let mut table = TaskTable::new(2);
    assert_eq!(table.timed(1, vec![0]), Ok(0));
    assert_eq!(table.bind(2, vec![0], 10), Ok(1));
    assert_eq!(table.bind(3, vec![0], 11), Ok(2));
    assert_eq!(table.bind(3, vec![1], 12), Ok(3));
    assert_eq!(table.bind(4, vec![], 13), Ok(4));
    let mut s = Scheduler::new(table);
    assert_eq!(s.ceilings, vec![3, 3]);
    let mut pair: Resource<(u32, u32)> = Resource::new(0, (0, 0));
    let mut ran: Vec<usize> = Vec::new();

    assert_eq!(pair.read(&s), Err(SchedError::Idle));
    assert_eq!(s.schedule_at(0, at(0)), Ok(()));
    assert_eq!(s.tick(at(0)), 1);
    assert_eq!(s.dispatch(), Some(0));
    assert_eq!(pair.write(&s, (9, 9)), Err(SchedError::BelowCeiling));
    assert_eq!(s.lock(0), Ok(()));
    assert_eq!(s.current_level(), 3);
    assert_eq!(pair.read(&s), Ok(&(0, 0)));
    assert_eq!(pair.write(&s, (1, 0)), Ok(()));
    for line in [10u16, 11, 12, 13] {
        assert!(s.raise(line).is_ok());
    }
    while let Some(t) = s.dispatch() {
        ran.push(t);
        assert_eq!(s.acknowledge(), Ok(()));
        assert_eq!(pair.read(&s), Err(SchedError::NotDeclared));
        assert_eq!(s.lock(0), Err(SchedError::NotDeclared));
        assert_eq!(s.complete(), Ok(t));
    }
    assert_eq!(ran, vec![4]);
    assert_eq!(s.running(), Some(0));
    assert_eq!(pair.write(&s, (1, 1)), Ok(()));
    assert_eq!(s.unlock(), Ok(0));
    assert_eq!(s.current_level(), 1);
    assert_eq!(pair.read(&s), Err(SchedError::BelowCeiling));
    while let Some(t) = s.dispatch() {
        ran.push(t);
        assert_eq!(s.acknowledge(), Ok(()));
        if t == 1 {
            assert_eq!(pair.read(&s), Err(SchedError::BelowCeiling));
            assert_eq!(s.lock(0), Ok(()));
        }
        if t == 1 || t == 2 {
            let seen = *pair.read(&s).unwrap();
            assert_eq!(seen.0, seen.1);
            assert_eq!(pair.write(&s, (seen.0 + 1, seen.1 + 1)), Ok(()));
        } else {
            assert_eq!(pair.read(&s), Err(SchedError::NotDeclared));
        }
        if t == 1 {
            assert_eq!(s.unlock(), Ok(0));
        }
        assert_eq!(s.complete(), Ok(t));
    }
    assert_eq!(ran, vec![4, 2, 3, 1]);
    assert_eq!(s.running(), Some(0));
    assert_eq!(s.lock(0), Ok(()));
    assert_eq!(pair.read(&s), Ok(&(3, 3)));
    assert_eq!(pair.id(), 0);
    assert_eq!(s.unlock(), Ok(0));
    assert_eq!(s.complete(), Ok(0));
    assert_eq!(pair.write(&s, (0, 0)), Err(SchedError::Idle));
}

#[test]
fn access_needs_the_ceiling() {
    let mut s = demo();
    assert_eq!(s.check_access(DELTA), Err(SchedError::Idle));
    assert_eq!(s.raise(BUTTON_LINE), Ok(1));
    assert_eq!(s.dispatch(), Some(1));
    assert_eq!(s.acknowledge(), Ok(()));
    assert_eq!(s.check_access(CUR), Err(SchedError::NotDeclared));
    assert_eq!(s.check_access(77), Err(SchedError::NotDeclared));
    assert_eq!(s.check_access(DELTA), Err(SchedError::BelowCeiling));
    assert_eq!(s.lock(DELTA), Ok(()));
    assert_eq!(s.check_access(DELTA), Ok(()));
    assert_eq!(s.unlock(), Ok(DELTA));
    assert_eq!(s.check_access(DELTA), Err(SchedError::BelowCeiling));
    assert_eq!(s.raise(TIMER_LINE), Ok(0));
    assert_eq!(s.dispatch(), Some(0));
    assert_eq!(s.check_access(DELTA), Err(SchedError::NotAcknowledged));
    assert_eq!(s.acknowledge(), Ok(()));
    assert_eq!(s.check_access(DELTA), Ok(()));
    assert_eq!(s.check_access(PWM), Ok(()));
    assert_eq!(s.check_access(STRIP), Err(SchedError::NotDeclared));
}

#[test]
fn rearm_keeps_the_phase_whatever_the_jitter() {
    let mut s = demo();
    let period = Duration { ticks: 1000 };
    let first: u32 = 0xffff_fc00;
    assert_eq!(s.schedule_at(2, at(first)), Ok(()));
    let jitter: [u32; 8] = [0, 1, 999, 500, 3, 998, 250, 0];
    for k in 0..8u32 {
        let due = first.wrapping_add(k * 1000);
        assert_eq!(s.tick(at(due.wrapping_sub(1))), 0);
        assert_eq!(s.tick(at(due.wrapping_add(jitter[k as usize]))), 1);
        assert_eq!(s.dispatch(), Some(2));
        assert_eq!(s.frames[0].deadline, Some(at(due)));
        assert_eq!(s.rearm(period), Ok(at(due.wrapping_add(1000))));
        assert_eq!(s.state_of(2), Ok(TaskState::Running));
        assert_eq!(s.complete(), Ok(2));
        assert_eq!(s.state_of(2), Ok(TaskState::Armed));
        assert_eq!(s.timers, vec![TimerEntry { task: 2, deadline: at(due.wrapping_add(1000)) }]);
    }
}

#[test]
fn a_skipped_period_is_not_made_up_by_shifting_later_ones() {
    let mut s = demo();
    let period = Duration { ticks: 100 };
    assert_eq!(s.schedule_at(2, at(100)), Ok(()));
    assert_eq!(s.tick(at(350)), 1);
    assert_eq!(s.dispatch(), Some(2));
    assert_eq!(s.rearm(period), Ok(at(200)));
    assert_eq!(s.complete(), Ok(2));
    assert_eq!(s.tick(at(351)), 1);
    assert_eq!(s.dispatch(), Some(2));
    assert_eq!(s.rearm(period), Ok(at(300)));
    assert_eq!(s.complete(), Ok(2));
    assert_eq!(s.tick(at(352)), 1);
    assert_eq!(s.dispatch(), Some(2));
    assert_eq!(s.rearm(period), Ok(at(400)));
    assert_eq!(s.complete(), Ok(2));
    assert_eq!(s.tick(at(399)), 0);
    assert_eq!(s.tick(at(400)), 1);
}

#[test]
fn scoped_lock_updates_and_restores_the_level() {
    let mut table = TaskTable::new(2);
    assert_eq!(table.timed(1, vec![0]), Ok(0));
    assert_eq!(table.timed(5, vec![0]), Ok(1));
    assert_eq!(table.timed(3, vec![1]), Ok(2));
    let mut s = Scheduler::new(table);
    let mut counter: Resource<u32> = Resource::new(0, 41);
    assert_eq!(counter.lock(&mut s, |v| *v + 1), Err(SchedError::Idle));
    assert_eq!(s.schedule_at(0, at(0)), Ok(()));
    assert_eq!(s.schedule_at(2, at(0)), Ok(()));
    assert_eq!(s.tick(at(0)), 2);
    assert_eq!(s.dispatch(), Some(2));
    assert_eq!(counter.lock(&mut s, |v| *v + 1), Err(SchedError::NotDeclared));
    assert_eq!(s.complete(), Ok(2));
    assert_eq!(s.dispatch(), Some(0));
    assert_eq!(s.current_level(), 1);
    let mut seen_level: u8 = 0;
    assert_eq!(counter.lock(&mut s, |v| *v + 1), Ok(()));
    assert_eq!(s.current_level(), 1);
    assert!(s.frames[0].held.is_empty());
    assert_eq!(s.lock(0), Ok(()));
    seen_level += s.current_level();
    assert_eq!(counter.read(&s), Ok(&42));
    assert_eq!(counter.lock(&mut s, |v| *v * 2), Err(SchedError::AlreadyHeld));
    assert_eq!(counter.read(&s), Ok(&42));
    assert_eq!(s.unlock(), Ok(0));
    assert_eq!(seen_level, 5);
    assert_eq!(s.complete(), Ok(0));
}

#[test]
fn a_preempted_task_resumes_only_when_nothing_more_urgent_is_ready() {
    let mut s = demo();
    assert_eq!(s.next_action(), Action::Sleep);
    assert_eq!(s.schedule_at(2, at(0)), Ok(()));
    assert_eq!(s.tick(at(0)), 1);
    assert_eq!(s.next_action(), Action::Start(2));
    assert_eq!(s.next_action(), Action::Resume(2));
    assert_eq!(s.raise(BUTTON_LINE), Ok(1));
    assert_eq!(s.raise(TIMER_LINE), Ok(0));
    assert_eq!(s.next_action(), Action::Start(0));
    assert_eq!(s.next_action(), Action::Resume(0));
    assert_eq!(s.acknowledge(), Ok(()));
    assert_eq!(s.complete(), Ok(0));
    assert_eq!(s.running(), Some(2));
    assert_eq!(s.next_action(), Action::Start(1));
    assert_eq!(s.acknowledge(), Ok(()));
    assert_eq!(s.complete(), Ok(1));
    assert_eq!(s.next_action(), Action::Resume(2));
    assert_eq!(s.complete(), Ok(2));
    assert_eq!(s.next_action(), Action::Sleep);
}
