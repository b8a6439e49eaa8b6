use mini_runtime::computations::GiveNumber;
use mini_runtime::notify::Notifier;
use mini_runtime::notify::Wakeable;
use mini_runtime::pinned::Test;
use mini_runtime::pinned::TestPin;
use mini_runtime::queue::ReadyQueue;
use mini_runtime::runtime::Computation;
use mini_runtime::runtime::QueryResult;

#[test]
fn ready_queue_is_first_in_first_out() {
    let mut q = ReadyQueue::new();
    assert!(q.is_empty());
    assert_eq!(q.pop_front(), None);
    q.push(3);
    q.push(1);
    q.push(3);
    assert_eq!(q.len(), 3);
    assert_eq!(q.pop_front(), Some(3));
    assert_eq!(q.pop_front(), Some(1));
    assert_eq!(q.pop_front(), Some(3));
    assert_eq!(q.pop_front(), None);
    assert!(q.is_empty());
}

#[test]
fn notifier_records_signals_per_handle() {
    let mut n = Notifier::new(4);
    assert_eq!(n.task, 4);
    assert_eq!(n.fired, 0);
    n.wake_by_ref();
    n.wake_by_ref();
    assert_eq!(n.fired, 2);
    assert_eq!(n.task, 4);
    // A clone is bound to the same task but starts with no signal.
    let clone = n.clone_handle();
    assert_eq!(clone.task, 4);
    assert_eq!(clone.fired, 0);
    assert_eq!(n.fired, 2);
}

#[test]
fn notifier_signal_count_saturates() {
    let mut n = Notifier::new(0);
    n.fired = u64::MAX;
    n.wake_by_ref();
    assert_eq!(n.fired, u64::MAX);
}

#[test]
fn give_number_is_ready_at_its_threshold() {
    // A threshold of zero or one means ready on the very first query.
    for threshold in [0u32, 1] {
        let mut g = GiveNumber::new(threshold);
        let mut n = Notifier::new(0);
        assert_eq!(g.query(&mut n), QueryResult::Ready);
        assert_eq!(g.current_tries, 0);
        assert_eq!(n.fired, 0);
    }

    let mut g = GiveNumber::new(3);
    let mut n = Notifier::new(0);
    assert_eq!(g.query(&mut n), QueryResult::Pending);
    assert_eq!(g.query(&mut n), QueryResult::Pending);
    assert_eq!(g.current_tries, 2);
    assert_eq!(n.fired, 2);
    assert_eq!(g.query(&mut n), QueryResult::Ready);
    assert_eq!(g.current_tries, 2);
    assert_eq!(n.fired, 2);
    // Ready is stable: further queries keep reporting ready.
    assert_eq!(g.query(&mut n), QueryResult::Ready);
}

#[test]
fn record_keeps_snapshot_of_its_text() {
    let mut test1 = Test::new("test1");
    assert_eq!(test1.a(), "test1");
    assert!(test1.b.is_none());
    test1.init();
    assert_eq!(test1.a(), "test1");
    assert_eq!(test1.b.as_deref(), Some("test1"));

    let mut test2 = Test::new("test2");
    test2.init();
    std::mem::swap(&mut test1, &mut test2);
    // The snapshot is owned, so it travels with the record's value.
    assert_eq!(test1.a(), "test2");
    assert_eq!(test1.b.as_deref(), Some("test2"));
    assert_eq!(test2.b.as_deref(), Some("test1"));
}

#[test]
fn pinned_record_keeps_snapshot_of_its_text() {
    let mut test1 = TestPin::new("test1");
    assert!(test1.b.is_none());
    test1.init();
    assert_eq!(test1.a(), "test1");
    assert_eq!(test1.b.as_deref(), Some("test1"));
}
