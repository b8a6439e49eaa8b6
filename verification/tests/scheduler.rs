use mini_runtime::computations::GiveNumber;
use mini_runtime::notify::Notifier;
use mini_runtime::notify::Wakeable;
use mini_runtime::runtime::Computation;
use mini_runtime::runtime::QueryResult;
use mini_runtime::runtime::Runtime;
use mini_runtime::runtime::StepOutcome;

/// Always reports `Pending` and never records a wake signal.
struct NeverWake {
    polls: u32,
}

impl Computation for NeverWake {
    fn query(&mut self, _notifier: &mut Notifier) -> QueryResult {
        self.polls += 1;
        QueryResult::Pending
    }
}

/// Always reports `Ready` on the first query.
struct Immediate {
    polls: u32,
}

impl Computation for Immediate {
    fn query(&mut self, _notifier: &mut Notifier) -> QueryResult {
        self.polls += 1;
        QueryResult::Ready
    }
}

/// Reports `Pending` and re-notifies itself until the `ready_after`-th query.
struct SelfWaking {
    polls: u32,
    ready_after: u32,
}

impl Computation for SelfWaking {
    fn query(&mut self, notifier: &mut Notifier) -> QueryResult {
        self.polls += 1;
        if self.polls < self.ready_after {
            notifier.wake_by_ref();
            QueryResult::Pending
        } else {
            QueryResult::Ready
        }
    }
}

#[test]
fn every_submitted_task_is_queried() {
    let mut rt: Runtime<NeverWake> = Runtime::default();
    for _ in 0..3 {
        rt.work_on(NeverWake { polls: 0 });
    }
    let drained = rt.process(100);
    assert!(drained);
    for task in &rt.tasks {
        assert_eq!(task.computation.polls, 1);
    }
}

#[test]
fn pending_without_wake_is_parked_not_busy_polled() {
    let mut rt: Runtime<NeverWake> = Runtime::default();
    let id = rt.work_on(NeverWake { polls: 0 });
    let drained = rt.process(100);
    assert!(drained);
    assert_eq!(rt.tasks[id].computation.polls, 1);
    assert!(!rt.tasks[id].done);
    // Nothing woke the task, so further processing never queries it again.
    let drained_again = rt.process(100);
    assert!(drained_again);
    assert_eq!(rt.tasks[id].computation.polls, 1);
    assert_eq!(rt.ready.len(), 0);
}

#[test]
fn synchronous_wake_requeues_within_same_pass() {
    let mut rt: Runtime<SelfWaking> = Runtime::default();
    let id = rt.work_on(SelfWaking { polls: 0, ready_after: 4 });
    // One processing pass suffices: each pending query re-enters the queue.
    let drained = rt.process(100);
    assert!(drained);
    assert_eq!(rt.tasks[id].computation.polls, 4);
    assert!(rt.tasks[id].done);
}

#[test]
fn n_invoked_clones_make_n_entries() {
    let mut rt: Runtime<NeverWake> = Runtime::default();
    let id = rt.work_on(NeverWake { polls: 0 });
    rt.process(100);
    assert_eq!(rt.ready.len(), 0);
    let handle = Notifier::new(id);
    let mut clones = Vec::new();
    for _ in 0..5 {
        clones.push(handle.clone_handle());
    }
    for clone in &clones {
        rt.wake_by_ref(clone);
    }
    assert_eq!(rt.ready.len(), 5);
    // Each duplicate entry causes one redundant but harmless re-query.
    let drained = rt.process(100);
    assert!(drained);
    assert_eq!(rt.tasks[id].computation.polls, 6);
}

#[test]
fn consuming_wake_spends_the_handle() {
    let mut rt: Runtime<NeverWake> = Runtime::default();
    let id = rt.work_on(NeverWake { polls: 0 });
    rt.process(100);
    rt.wake(Notifier::new(id));
    assert_eq!(rt.ready.len(), 1);
    rt.process(100);
    assert_eq!(rt.tasks[id].computation.polls, 2);
}

#[test]
fn dropped_handles_leave_task_parked_forever() {
    let mut rt: Runtime<NeverWake> = Runtime::default();
    let id = rt.work_on(NeverWake { polls: 0 });
    rt.process(100);
    let handle = Notifier::new(id);
    let clone_a = handle.clone_handle();
    let clone_b = handle.clone_handle();
    drop(clone_a);
    drop(clone_b);
    drop(handle);
    // No handle was ever delivered, so the task stays parked.
    assert_eq!(rt.ready.len(), 0);
    let drained = rt.process(100);
    assert!(drained);
    assert_eq!(rt.tasks[id].computation.polls, 1);
    assert!(!rt.tasks[id].done);
}

#[test]
fn countdown_is_queried_exactly_ten_times() {
    let mut rt: Runtime<GiveNumber> = Runtime::default();
    let id = rt.work_on(GiveNumber::new(10));
    let drained = rt.process(1000);
    assert!(drained);
    // Nine pending queries, then the tenth reports ready.
    assert_eq!(rt.tasks[id].computation.current_tries, 9);
    assert!(rt.tasks[id].done);
    assert_eq!(rt.ready.len(), 0);
}

#[test]
fn immediate_computations_complete_after_one_query_each() {
    let mut rt: Runtime<Immediate> = Runtime::default();
    let first = rt.work_on(Immediate { polls: 0 });
    let second = rt.work_on(Immediate { polls: 0 });
    let drained = rt.process(100);
    assert!(drained);
    assert_eq!(rt.tasks[first].computation.polls, 1);
    assert_eq!(rt.tasks[second].computation.polls, 1);
    assert!(rt.tasks[first].done);
    assert!(rt.tasks[second].done);

    // The same holds with the submission order reversed.
    let mut rt2: Runtime<Immediate> = Runtime::default();
    let second2 = rt2.work_on(Immediate { polls: 0 });
    let first2 = rt2.work_on(Immediate { polls: 0 });
    assert!(rt2.process(100));
    assert_eq!(rt2.tasks[first2].computation.polls, 1);
    assert_eq!(rt2.tasks[second2].computation.polls, 1);
}

#[test]
fn step_reports_idle_on_empty_queue() {
    let mut rt: Runtime<NeverWake> = Runtime::default();
    assert_eq!(rt.step(), StepOutcome::Idle);
}

#[test]
fn step_skips_stale_entry_for_completed_task() {
    let mut rt: Runtime<Immediate> = Runtime::default();
    let id = rt.work_on(Immediate { polls: 0 });
    rt.process(100);
    assert!(rt.tasks[id].done);
    rt.wake_by_ref(&Notifier::new(id));
    let outcome = rt.step();
    assert_eq!(outcome, StepOutcome::Skipped { task: id });
    assert_eq!(rt.tasks[id].computation.polls, 1);
}

#[test]
fn step_reports_query_outcome() {
    let mut rt: Runtime<SelfWaking> = Runtime::default();
    let id = rt.work_on(SelfWaking { polls: 0, ready_after: 2 });
    let outcome = rt.step();
    assert_eq!(outcome, StepOutcome::Queried { task: id, fired: 1, completed: false });
    let outcome = rt.step();
    assert_eq!(outcome, StepOutcome::Queried { task: id, fired: 0, completed: true });
    assert_eq!(rt.step(), StepOutcome::Idle);
}

#[test]
fn wake_for_unknown_task_is_ignored() {
    let mut rt: Runtime<NeverWake> = Runtime::default();
    rt.work_on(NeverWake { polls: 0 });
    rt.wake_by_ref(&Notifier::new(99));
    assert_eq!(rt.ready.len(), 1);
    let drained = rt.process(100);
    assert!(drained);
}

#[test]
fn budget_bounds_the_number_of_turns() {
    let mut rt: Runtime<SelfWaking> = Runtime::default();
    let id = rt.work_on(SelfWaking { polls: 0, ready_after: 10 });
    let drained = rt.process(3);
    assert!(!drained);
    assert_eq!(rt.tasks[id].computation.polls, 3);
    assert!(rt.process(100));
    assert_eq!(rt.tasks[id].computation.polls, 10);
}

#[test]
fn processing_an_empty_queue_drains_immediately() {
    let mut rt: Runtime<NeverWake> = Runtime::default();
    assert!(rt.process(0));
    assert!(rt.process(5));
}

#[test]
fn stale_entries_drain_within_queue_length_budget() {
    let mut rt: Runtime<Immediate> = Runtime::default();
    let id = rt.work_on(Immediate { polls: 0 });
    rt.process(100);
    assert!(rt.tasks[id].done);
    rt.wake_by_ref(&Notifier::new(id));
    rt.wake_by_ref(&Notifier::new(id));
    // Two stale entries; a budget of two must drain them.
    assert!(rt.process(2));
    assert_eq!(rt.tasks[id].computation.polls, 1);
}
