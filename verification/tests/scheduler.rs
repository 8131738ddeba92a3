use kernel_core::interrupts::{disposition, end_of_interrupt, timer_tick, Disposition, Exception};
use kernel_core::interrupts::pic::InterruptIndex;
use kernel_core::task::context::TaskContext;
use kernel_core::task::scheduler::Scheduler;
use kernel_core::task::{Task, TaskPriority, TaskState, TaskStatistics};

fn state(s: &Scheduler, id: usize) -> TaskState {
    s.task(id).unwrap().state
}

/// The invariant, checked on the values: the current task is running and
/// in no queue, the queues hold the ready tasks, each once.
fn check(s: &Scheduler) {
    let mut seen = vec![0usize; s.task_count()];
    for priority in [TaskPriority::Low, TaskPriority::Normal, TaskPriority::High] {
        for id in s.queued(priority) {
            seen[id] += 1;
            assert_eq!(state(s, id), TaskState::Ready);
            assert_eq!(s.task(id).unwrap().priority, priority);
        }
        assert_eq!(s.queued(priority).len(), s.queue_len(priority));
    }
    if let Some(c) = s.current() {
        assert_eq!(state(s, c), TaskState::Running);
        assert_eq!(seen[c], 0);
    }
    for id in 0..s.task_count() {
        let task = s.task(id).unwrap();
        assert_eq!(task.id, id);
        assert!(task.time_slice > 0 && task.time_slice <= task.quantum);
        match task.state {
            TaskState::Ready => assert_eq!(seen[id], 1),
            TaskState::Running => assert_eq!(s.current(), Some(id)),
            _ => assert_eq!(seen[id], 0),
        }
        assert!(s.current() != Some(id) || task.state == TaskState::Running);
    }
}

#[test]
fn new_task_is_ready_with_a_full_quantum() {
    let task = Task::new(3, 0x1000, 0x9000, 77);
    assert_eq!(task.id, 3);
    assert_eq!(task.state, TaskState::Ready);
    assert_eq!(task.priority, TaskPriority::Normal);
    assert_eq!(task.base_priority, TaskPriority::Normal);
    assert_eq!(task.quantum, 100);
    assert_eq!(task.time_slice, 100);
    assert_eq!(task.deadline, None);
    assert_eq!(task.group_id, None);
    assert_eq!(task.context, TaskContext::new(0x1000, 0x9000));
    assert_eq!(task.context.rip, 0x1000);
    assert_eq!(task.context.rsp, 0x9000);
    assert_eq!(task.context.rbp, 0);
    assert_eq!(task.get_tls().unwrap().len(), 4096);
    assert!(task.get_tls().unwrap().iter().all(|b| *b == 0));
    assert_eq!(
        *task.get_stats(),
        TaskStatistics { created_at: 77, total_runtime: 0, context_switches: 0, last_scheduled: None }
    );
    let high = Task::with_priority(4, 1, 2, TaskPriority::High, 0);
    assert_eq!(high.priority, TaskPriority::High);
    assert_eq!(high.base_priority, TaskPriority::High);
}

#[test]
fn task_priority_boost_and_reset() {
    let mut task = Task::with_priority(0, 1, 2, TaskPriority::Low, 0);
    task.boost_priority();
    assert_eq!(task.priority, TaskPriority::Normal);
    task.boost_priority();
    assert_eq!(task.priority, TaskPriority::High);
    task.boost_priority();
    assert_eq!(task.priority, TaskPriority::High);
    assert_eq!(task.base_priority, TaskPriority::Low);
    task.reset_priority();
    assert_eq!(task.priority, TaskPriority::Low);
    assert_eq!(TaskPriority::Low.index(), 0);
    assert_eq!(TaskPriority::Normal.index(), 1);
    assert_eq!(TaskPriority::High.index(), 2);
}

#[test]
fn task_time_slice() {
    let mut task = Task::new(0, 1, 2, 0);
    assert!(!task.decrement_time_slice());
    assert_eq!(task.time_slice, 99);
    task.time_slice = 1;
    assert!(task.decrement_time_slice());
    assert_eq!(task.time_slice, 0);
    assert!(task.decrement_time_slice());
    assert_eq!(task.time_slice, 0);
    task.reset_time_slice();
    assert_eq!(task.time_slice, 100);
}

#[test]
fn task_suspend_and_resume() {
    let mut task = Task::new(0, 1, 2, 0);
    task.suspend();
    assert_eq!(task.state, TaskState::Suspended);
    task.resume();
    assert_eq!(task.state, TaskState::Ready);
    task.resume();
    assert_eq!(task.state, TaskState::Ready);
    task.state = TaskState::Blocked;
    task.resume();
    assert_eq!(task.state, TaskState::Blocked);
    task.state = TaskState::Terminated;
    task.suspend();
    assert_eq!(task.state, TaskState::Terminated);
    task.set_deadline(9);
    task.set_group(4);
    assert_eq!(task.deadline, Some(9));
    assert_eq!(task.group_id, Some(4));
}

#[test]
fn statistics_account_runtime() {
    let mut stats = TaskStatistics::new(5);
    stats.account(100);
    assert_eq!(stats.total_runtime, 0);
    assert_eq!(stats.context_switches, 1);
    stats.last_scheduled = Some(40);
    stats.account(100);
    assert_eq!(stats.total_runtime, 60);
    assert_eq!(stats.context_switches, 2);
    stats.account(30);
    assert_eq!(stats.total_runtime, 60);
    stats.total_runtime = u64::MAX - 1;
    stats.account(100);
    assert_eq!(stats.total_runtime, u64::MAX);
    stats.context_switches = usize::MAX;
    stats.account(100);
    assert_eq!(stats.context_switches, usize::MAX);
}

#[test]
fn spawn_puts_tasks_on_their_queues() {
    let mut s = Scheduler::new();
    assert_eq!(s.current(), None);
    assert_eq!(s.schedule(0), None);
    let a = s.spawn(0x100, 0x1000, 1);
    let b = s.spawn_with_priority(0x200, 0x2000, TaskPriority::High, 2);
    let c = s.spawn_with_deadline(0x300, 0x3000, 50, 3);
    let d = s.spawn_in_group(0x400, 0x4000, 9, 4);
    let e = s.spawn_with_priority(0x500, 0x5000, TaskPriority::Low, 5);
    assert_eq!((a, b, c, d, e), (0, 1, 2, 3, 4));
    assert_eq!(s.queued(TaskPriority::Normal), vec![0, 2, 3]);
    assert_eq!(s.queued(TaskPriority::High), vec![1]);
    assert_eq!(s.queued(TaskPriority::Low), vec![4]);
    assert_eq!(s.task(c).unwrap().deadline, Some(50));
    assert_eq!(s.task(d).unwrap().group_id, Some(9));
    assert_eq!(s.task(b).unwrap().context.rip, 0x200);
    assert_eq!(s.task(b).unwrap().stats.created_at, 2);
    assert!(s.task(5).is_none());
    assert_eq!(s.task_count(), 5);
    check(&s);
}

#[test]
fn current_task_is_never_queued() {
    let mut s = Scheduler::new();
    for i in 0..6u64 {
        s.spawn_with_priority(0, 0, [TaskPriority::Low, TaskPriority::Normal, TaskPriority::High][(i % 3) as usize], i);
        s.spawn_in_group(0, 0, (i % 2) as usize, i);
    }
    check(&s);
    for step in 0..400u64 {
        match step % 7 {
            0 => {
                s.yield_now(step);
            }
            1 | 2 => {
                s.schedule(step);
            }
            3 => {
                s.block_current(step);
            }
            4 => s.unblock_task((step % 12) as usize),
            5 => s.suspend_group((step % 2) as usize),
            _ => s.resume_group((step % 2) as usize),
        }
        check(&s);
    }
}

#[test]
fn cooperative_scheduling_fairness() {
    let mut s = Scheduler::new();
    let a = s.spawn(0, 0, 0);
    let b = s.spawn(0, 0, 0);
    let c = s.spawn(0, 0, 0);
    let mut counters = [0usize; 3];
    let mut running = s.schedule(0).unwrap();
    for tick in 1..=30u64 {
        counters[running] += 1;
        running = s.yield_now(tick).unwrap();
    }
    assert_eq!(counters[a], 10);
    assert_eq!(counters[b], 10);
    assert_eq!(counters[c], 10);
    check(&s);
}

#[test]
fn yield_is_round_robin_within_a_level() {
    let mut s = Scheduler::new();
    s.spawn(0, 0, 0);
    s.spawn(0, 0, 0);
    s.spawn(0, 0, 0);
    let order: Vec<usize> = (0..7).map(|t| s.yield_now(t).unwrap()).collect();
    assert_eq!(order, vec![0, 1, 2, 0, 1, 2, 0]);
    assert_eq!(s.queued(TaskPriority::Normal), vec![1, 2]);
}

#[test]
fn priority_dominance() {
    let mut s = Scheduler::new();
    let h = s.spawn_with_priority(0, 0, TaskPriority::High, 0);
    let l = s.spawn_with_priority(0, 0, TaskPriority::Low, 0);
    assert_eq!(s.schedule(0), Some(h));
    // H keeps the CPU through its quantum, tick by tick
    for tick in 1..100u64 {
        assert_eq!(s.schedule(tick), Some(h));
        assert_eq!(s.task(h).unwrap().time_slice, 100 - tick as usize);
        assert_eq!(state(&s, l), TaskState::Ready);
        assert_eq!(s.task(l).unwrap().stats.last_scheduled, None);
    }
    // at the end of the quantum H goes to the back of its level, which is
    // still the highest with a task: L does not run while H is ready
    assert_eq!(s.schedule(100), Some(h));
    assert_eq!(s.task(h).unwrap().time_slice, 100);
    assert_eq!(s.task(l).unwrap().stats.last_scheduled, None);
    // once H blocks, L runs
    assert_eq!(s.block_current(101), Some(l));
    assert_eq!(state(&s, h), TaskState::Blocked);
    assert_eq!(s.task(l).unwrap().stats.last_scheduled, Some(101));
    check(&s);
}

#[test]
fn three_priorities_run_in_order() {
    let mut s = Scheduler::new();
    let c = s.spawn_with_priority(0, 0, TaskPriority::Low, 0);
    let b = s.spawn_with_priority(0, 0, TaskPriority::Normal, 0);
    let a = s.spawn_with_priority(0, 0, TaskPriority::High, 0);
    let mut sequence = Vec::new();
    sequence.push(s.yield_now(0).unwrap());
    for tick in 1..20u64 {
        sequence.push(s.yield_now(tick).unwrap());
    }
    assert!(sequence.iter().all(|id| *id == a));
    sequence.clear();
    sequence.push(s.block_current(20).unwrap());
    for tick in 21..40u64 {
        sequence.push(s.yield_now(tick).unwrap());
    }
    assert!(sequence.iter().all(|id| *id == b));
    assert_eq!(s.block_current(40), Some(c));
    // B becomes ready again: C yields to it at once
    s.unblock_task(b);
    assert_eq!(s.yield_now(41), Some(b));
    s.unblock_task(a);
    assert_eq!(s.yield_now(42), Some(a));
    check(&s);
}

#[test]
fn schedule_keeps_the_task_while_its_slice_lasts() {
    let mut s = Scheduler::new();
    let a = s.spawn(0, 0, 0);
    let b = s.spawn(0, 0, 0);
    assert_eq!(s.schedule(10), Some(a));
    assert_eq!(s.task(a).unwrap().stats.last_scheduled, Some(10));
    assert_eq!(s.task(a).unwrap().time_slice, 100);
    assert_eq!(s.schedule(11), Some(a));
    assert_eq!(s.task(a).unwrap().time_slice, 99);
    assert_eq!(s.task(a).unwrap().stats.total_runtime, 1);
    assert_eq!(s.task(a).unwrap().stats.context_switches, 1);
    for tick in 12..110u64 {
        assert_eq!(s.schedule(tick), Some(a));
    }
    assert_eq!(s.task(a).unwrap().time_slice, 1);
    assert_eq!(s.schedule(110), Some(b));
    assert_eq!(s.task(a).unwrap().time_slice, 100);
    assert_eq!(state(&s, a), TaskState::Ready);
    // every look adds the time since the task got the CPU: 1 + 2 + ... + 100
    assert_eq!(s.task(a).unwrap().stats.total_runtime, 5050);
    assert_eq!(s.task(a).unwrap().stats.context_switches, 100);
    assert_eq!(s.task(b).unwrap().stats.last_scheduled, Some(110));
    assert_eq!(s.queued(TaskPriority::Normal), vec![a]);
}

#[test]
fn deadline_boost_is_sticky() {
    let mut s = Scheduler::new();
    let a = s.spawn(0, 0, 0);
    let d = s.spawn_with_deadline(0, 0, 50, 0);
    assert_eq!(s.schedule(1), Some(a));
    assert_eq!(s.schedule(50), Some(a));
    assert_eq!(s.task(d).unwrap().priority, TaskPriority::Normal);
    assert_eq!(s.schedule(51), Some(a));
    assert_eq!(s.task(d).unwrap().priority, TaskPriority::High);
    assert_eq!(s.task(d).unwrap().base_priority, TaskPriority::Normal);
    // the boost shows when the task is queued anew: from then on it
    // comes back to the high level and keeps the CPU from the normal one
    assert_eq!(s.yield_now(52), Some(d));
    assert_eq!(s.yield_now(53), Some(d));
    assert_eq!(s.yield_now(54), Some(d));
    assert_eq!(s.queued(TaskPriority::Normal), vec![a]);
    assert!(s.queued(TaskPriority::High).is_empty());
    // until its priority is reset
    s.reset_priority(d);
    assert_eq!(s.task(d).unwrap().priority, TaskPriority::Normal);
    assert_eq!(s.yield_now(55), Some(a));
    assert_eq!(s.yield_now(56), Some(d));
    s.reset_priority(77);
    check(&s);
}

#[test]
fn blocked_task_waits_for_unblock() {
    let mut s = Scheduler::new();
    let a = s.spawn(0, 0, 0);
    let b = s.spawn(0, 0, 0);
    assert_eq!(s.schedule(0), Some(a));
    assert_eq!(s.block_current(1), Some(b));
    assert_eq!(state(&s, a), TaskState::Blocked);
    for tick in 2..10u64 {
        assert_eq!(s.yield_now(tick), Some(b));
    }
    assert_eq!(s.block_current(10), None);
    assert_eq!(s.current(), None);
    assert_eq!(s.schedule(11), None);
    s.unblock_task(a);
    assert_eq!(state(&s, a), TaskState::Ready);
    s.unblock_task(a);
    assert_eq!(s.queued(TaskPriority::Normal), vec![a]);
    s.unblock_task(99);
    assert_eq!(s.schedule(12), Some(a));
    check(&s);
}

#[test]
fn suspended_group_resumes_ready() {
    let mut s = Scheduler::new();
    let a = s.spawn_in_group(0, 0, 1, 0);
    let b = s.spawn_in_group(0, 0, 1, 0);
    let c = s.spawn_in_group(0, 0, 2, 0);
    let d = s.spawn(0, 0, 0);
    assert_eq!(s.schedule(0), Some(a));
    s.suspend_group(1);
    assert_eq!(state(&s, a), TaskState::Suspended);
    assert_eq!(state(&s, b), TaskState::Suspended);
    assert_eq!(state(&s, c), TaskState::Ready);
    assert_eq!(s.current(), None);
    assert_eq!(s.queued(TaskPriority::Normal), vec![c, d]);
    check(&s);
    assert_eq!(s.schedule(1), Some(c));
    s.resume_group(1);
    assert_eq!(state(&s, a), TaskState::Ready);
    assert_eq!(state(&s, b), TaskState::Ready);
    assert_eq!(s.queued(TaskPriority::Normal), vec![d, a, b]);
    s.resume_group(1);
    assert_eq!(s.queued(TaskPriority::Normal), vec![d, a, b]);
    s.suspend_group(77);
    s.resume_group(77);
    assert_eq!(s.queued(TaskPriority::Normal), vec![d, a, b]);
    check(&s);
}

#[test]
fn timer_tick_asks_for_a_switch_when_the_task_changes() {
    let mut s = Scheduler::new();
    assert!(!timer_tick(&mut s, 0));
    s.spawn(0, 0, 0);
    s.spawn(0, 0, 0);
    assert!(timer_tick(&mut s, 1));
    for tick in 2..100u64 {
        assert!(!timer_tick(&mut s, tick));
    }
    assert!(!timer_tick(&mut s, 100));
    assert_eq!(s.current(), Some(0));
    assert!(timer_tick(&mut s, 101));
    assert_eq!(s.current(), Some(1));
}

#[test]
fn faults_halt_and_breakpoints_return() {
    assert_eq!(disposition(Exception::Breakpoint), Disposition::Return);
    assert_eq!(disposition(Exception::DoubleFault), Disposition::Halt);
    assert_eq!(disposition(Exception::PageFault), Disposition::Halt);
    assert_eq!(disposition(Exception::GeneralProtectionFault), Disposition::Halt);
    assert_eq!(disposition(Exception::InvalidOpcode), Disposition::Halt);
    assert_eq!(end_of_interrupt(InterruptIndex::Timer), 32);
    assert_eq!(end_of_interrupt(InterruptIndex::Keyboard), 33);
}

#[test]
fn boosted_task_moves_to_the_queue_of_its_new_priority() {
    let mut s = Scheduler::new();
    let c = s.spawn(0x1000, 0x9000, 0);
    let x = s.spawn(0x1000, 0x9000, 0);
    let t = s.spawn_with_deadline(0x1000, 0x9000, 5, 0);
    assert_eq!(s.schedule(0), Some(c));
    assert_eq!(s.queued(TaskPriority::Normal), vec![x, t]);
    // at tick 10 the deadline has passed: t rises to High, waits there, and
    // gets the CPU before x
    assert_eq!(s.yield_now(10), Some(t));
    check(&s);
    assert_eq!(s.task(t).unwrap().priority, TaskPriority::High);
    assert_eq!(s.task(t).unwrap().base_priority, TaskPriority::Normal);
    assert_eq!(s.queued(TaskPriority::High), vec![]);
    assert_eq!(s.queued(TaskPriority::Normal), vec![x, c]);
    // t keeps the CPU against the Normal tasks until its priority is reset
    assert_eq!(s.yield_now(11), Some(t));
    s.reset_priority(t);
    assert_eq!(s.yield_now(12), Some(x));
    check(&s);
    assert_eq!(s.queued(TaskPriority::Normal), vec![c, t]);
    assert_eq!(s.queued(TaskPriority::High), vec![]);
}

#[test]
fn reset_moves_a_waiting_task_back_to_its_first_queue() {
    let mut s = Scheduler::new();
    let c = s.spawn(0x1000, 0x9000, 0);
    let l = s.spawn_with_priority(0x1000, 0x9000, TaskPriority::Low, 0);
    let t = s.spawn_with_deadline(0x1000, 0x9000, 5, 0);
    let u = s.spawn_with_deadline(0x1000, 0x9000, 5, 0);
    assert_eq!(s.schedule(0), Some(c));
    // one tick after the deadline both have moved up, in the order of their ids
    assert_eq!(s.schedule(6), Some(c));
    assert_eq!(s.queued(TaskPriority::High), vec![t, u]);
    assert_eq!(s.queued(TaskPriority::Normal), vec![]);
    s.reset_priority(t);
    check(&s);
    assert_eq!(s.queued(TaskPriority::High), vec![u]);
    assert_eq!(s.queued(TaskPriority::Normal), vec![t]);
    assert_eq!(s.queued(TaskPriority::Low), vec![l]);
    assert_eq!(s.task(t).unwrap().priority, TaskPriority::Normal);
    // a reset of a task that has the priority of its creation changes nothing
    s.reset_priority(l);
    s.reset_priority(99);
    assert_eq!(s.queued(TaskPriority::Low), vec![l]);
}
