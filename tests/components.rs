use billyjoule::children::{select_children, ChildContainer};
use billyjoule::deleter::{BatchDeleter, DeleteCall, Executor, BATCH_MAX};
use billyjoule::filter::ExpirationFilter;
use billyjoule::message::Message;
use billyjoule::pager::{MalformedPage, MessagePager, PageRequest, PAGE_SIZE};
use billyjoule::policy::{RetentionPolicy, CHILD_MAX_AGE_MS};
use billyjoule::scheduler::{SchedulerAction, SchedulerEvent, SchedulerState, SweepScheduler, SLEEP_MS};
use billyjoule::stats::StatsTracker;
use billyjoule::sweep::{Sweep, SweepAction};

fn m(id: u64, timestamp: i64) -> Message {
    Message::new(id, timestamp, false)
}

#[test]
fn pager_sorts_page_and_moves_cursor() {
    let mut p = MessagePager::new(5);
    assert_eq!(p.next_request(), Some(PageRequest { container: 5, after: 0, limit: PAGE_SIZE }));
    let page = vec![m(3, 30), m(1, 10), m(2, 20), m(4, 20)];
    let sorted = p.receive(page).unwrap();
    let ids: Vec<u64> = sorted.iter().map(|x| x.id).collect();
    // Equal timestamps keep their order.
    assert_eq!(ids, vec![1, 2, 4, 3]);
    assert_eq!(p.cursor(), 3);
    assert!(p.is_open());
    assert_eq!(p.next_request(), Some(PageRequest { container: 5, after: 3, limit: PAGE_SIZE }));
}

#[test]
fn pager_ends_on_empty_page() {
    let mut p = MessagePager::new(5);
    assert_eq!(p.receive(vec![]), Ok(vec![]));
    assert!(!p.is_open());
    assert_eq!(p.next_request(), None);
    assert_eq!(p.cursor(), 0);
}

#[test]
fn pager_refuses_page_before_cursor() {
    let mut p = MessagePager::new(5);
    p.receive(vec![m(10, 1)]).unwrap();
    assert_eq!(p.receive(vec![m(11, 2), m(10, 3)]), Err(MalformedPage { cursor: 10 }));
    assert!(!p.is_open());
}

#[test]
fn pager_fail_and_stop_end_walk() {
    let mut p = MessagePager::new(1);
    p.fail();
    assert_eq!(p.next_request(), None);
    let mut q = MessagePager::new(1);
    q.stop();
    assert!(!q.is_open());
}

#[test]
fn filter_marks_expired_unpinned_and_halts() {
    let mut f = ExpirationFilter::new(100);
    assert!(f.offer(m(1, 10)));
    assert!(f.offer(Message::new(2, 20, true)));
    assert!(f.offer(m(3, 99)));
    assert!(!f.offer(m(4, 100)));
    assert!(f.is_halted());
    assert_eq!(f.deletable(), &vec![1, 3]);
}

#[test]
fn filter_offer_page_counts_expired_prefix() {
    let mut f = ExpirationFilter::new(50);
    let page = vec![m(1, 10), m(2, 20)];
    assert_eq!(f.offer_page(&page), 2);
    assert!(!f.is_halted());
    let page2 = vec![m(3, 30), m(4, 60), m(5, 5)];
    assert_eq!(f.offer_page(&page2), 1);
    assert!(f.is_halted());
    // The message after the halting one is never evaluated, even though it is old.
    assert_eq!(f.deletable(), &vec![1, 2, 3]);
}

#[test]
fn filter_cutoff_is_strict() {
    let mut f = ExpirationFilter::new(50);
    assert_eq!(f.offer_page(&vec![m(1, 50)]), 0);
    assert!(f.deletable().is_empty());
}

fn run_deleter(d: &mut BatchDeleter) -> Vec<DeleteCall> {
    let mut calls = Vec::new();
    while let Some(c) = d.pending() {
        calls.push(c);
        d.on_success();
    }
    calls
}

#[test]
fn deleter_single_id_uses_single_call() {
    let mut d = BatchDeleter::new(vec![42], Executor::Live);
    assert_eq!(run_deleter(&mut d), vec![DeleteCall::One(42)]);
    assert_eq!(d.deleted(), 1);
}

#[test]
fn deleter_chunks_of_hundred_with_single_tail() {
    let ids: Vec<u64> = (1..=201).collect();
    let mut d = BatchDeleter::new(ids.clone(), Executor::Live);
    let calls = run_deleter(&mut d);
    assert_eq!(calls.len(), 3);
    assert_eq!(calls[0], DeleteCall::Batch(ids[0..100].to_vec()));
    assert_eq!(calls[1], DeleteCall::Batch(ids[100..200].to_vec()));
    assert_eq!(calls[2], DeleteCall::One(201));
    assert_eq!(d.deleted(), 201);
}

#[test]
fn deleter_exact_hundred_and_two() {
    let mut d = BatchDeleter::new((0..BATCH_MAX as u64).collect(), Executor::Live);
    let calls = run_deleter(&mut d);
    assert_eq!(calls.len(), 1);
    let mut d2 = BatchDeleter::new(vec![8, 9], Executor::Live);
    assert_eq!(run_deleter(&mut d2), vec![DeleteCall::Batch(vec![8, 9])]);
    let mut d3 = BatchDeleter::new((0..102).collect(), Executor::Live);
    let calls3 = run_deleter(&mut d3);
    assert_eq!(calls3.len(), 2);
    assert_eq!(calls3[1], DeleteCall::Batch(vec![100, 101]));
}

#[test]
fn deleter_empty_and_dry_make_no_call() {
    let mut d = BatchDeleter::new(vec![], Executor::Live);
    assert_eq!(d.pending(), None);
    let d2 = BatchDeleter::new(vec![1, 2, 3], Executor::Dry);
    assert_eq!(d2.pending(), None);
    assert_eq!(d2.deleted(), 0);
    assert_eq!(d2.candidates(), 3);
    assert!(run_deleter(&mut d).is_empty());
}

#[test]
fn deleter_failure_stops_run() {
    let mut d = BatchDeleter::new((0..250).collect(), Executor::Live);
    assert!(d.pending().is_some());
    d.on_success();
    d.on_failure();
    assert!(d.has_failed());
    assert_eq!(d.pending(), None);
    assert_eq!(d.deleted(), 100);
}

#[test]
fn children_selected_by_parent_without_repeats() {
    let listed = vec![
        ChildContainer { id: 4, parent_id: Some(1), message_count: 0 },
        ChildContainer { id: 5, parent_id: None, message_count: 3 },
        ChildContainer { id: 6, parent_id: Some(2), message_count: 3 },
        ChildContainer { id: 7, parent_id: Some(1), message_count: 3 },
        ChildContainer { id: 4, parent_id: Some(1), message_count: 0 },
    ];
    assert_eq!(select_children(1, &listed), vec![4, 7]);
    assert_eq!(select_children(9, &listed), Vec::<u64>::new());
}

#[test]
fn sweep_complete_after_empty_page() {
    let mut s = Sweep::new(3, 100, Executor::Live);
    assert_eq!(
        s.action(),
        SweepAction::Fetch(PageRequest { container: 3, after: 0, limit: PAGE_SIZE })
    );
    s.on_page(vec![]);
    assert!(s.is_complete());
    assert_eq!(s.action(), SweepAction::Complete);
    assert_eq!(s.deleted(), 0);
}

#[test]
fn sweep_deletes_after_halting_page() {
    let mut s = Sweep::new(3, 100, Executor::Live);
    s.on_page(vec![m(2, 50), m(1, 10), m(3, 150)]);
    assert_eq!(s.marked(), 2);
    assert_eq!(s.action(), SweepAction::Delete(DeleteCall::Batch(vec![1, 2])));
    s.on_delete_result(true);
    assert!(s.is_complete());
    assert_eq!(s.deleted(), 2);
    assert!(!s.page_failed());
    assert!(!s.delete_failed());
}

#[test]
fn sweep_page_failure_deletes_marked() {
    let mut s = Sweep::new(3, 100, Executor::Live);
    s.on_page(vec![m(1, 10)]);
    s.on_page_failed();
    assert!(s.page_failed());
    assert_eq!(s.action(), SweepAction::Delete(DeleteCall::One(1)));
}

#[test]
fn policy_cutoff_and_child_policy() {
    let p = RetentionPolicy::new(1_000, false);
    assert_eq!(p.cutoff(5_000), 4_000);
    assert_eq!(p.executor(), Executor::Live);
    assert_eq!(RetentionPolicy::new(1, true).executor(), Executor::Dry);
    let c = RetentionPolicy::for_child();
    assert_eq!(c, RetentionPolicy { max_age_ms: 86_400_000, dry_run: false });
    assert_eq!(c.cutoff(CHILD_MAX_AGE_MS), 0);
}

#[test]
fn tracker_sums_passes() {
    let mut t = StatsTracker::new(12);
    t.publish_pass(5);
    t.publish_pass(0);
    t.publish_pass(7);
    let s = t.snapshot();
    assert_eq!(s.runs, 3);
    assert_eq!(s.last_run, 7);
    assert_eq!(s.all_runs, 12);
    assert_eq!(s.started, 12);
}

#[test]
fn scheduler_loops_hourly() {
    let mut s = SweepScheduler::new(false);
    assert_eq!(s.step(SchedulerEvent::PassFinished), SchedulerAction::Wait);
    assert_eq!(s.step(SchedulerEvent::Ready), SchedulerAction::RunPass);
    assert_eq!(s.step(SchedulerEvent::PassFinished), SchedulerAction::Sleep(SLEEP_MS));
    assert_eq!(SLEEP_MS, 3_600_000);
    assert_eq!(s.state, SchedulerState::Sleeping);
    assert_eq!(s.step(SchedulerEvent::Woke), SchedulerAction::RunPass);
    assert_eq!(s.state, SchedulerState::Sweeping);
}

#[test]
fn scheduler_once_exits_after_first_pass() {
    let mut s = SweepScheduler::new(true);
    assert_eq!(s.step(SchedulerEvent::Ready), SchedulerAction::RunPass);
    assert_eq!(s.step(SchedulerEvent::PassFinished), SchedulerAction::Exit);
    assert_eq!(s.state, SchedulerState::Exited);
    assert_eq!(s.step(SchedulerEvent::Woke), SchedulerAction::Exit);
}

