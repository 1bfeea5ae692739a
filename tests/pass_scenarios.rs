use std::collections::HashMap;

use billyjoule::children::ChildContainer;
use billyjoule::deleter::DeleteCall;
use billyjoule::message::Message;
use billyjoule::pass::{Action, Pass, PassReport};
use billyjoule::policy::{RetentionPolicy, CHILD_MAX_AGE_MS};
use billyjoule::sweeper::Sweeper;

const NOW: i64 = 1_700_000_000_000;
const HOUR: i64 = 3_600_000;

/// An in-memory platform that records every call made to it.
#[derive(Default)]
struct Platform {
    messages: HashMap<u64, Vec<Message>>,
    children: Vec<ChildContainer>,
    fail_children: bool,
    /// Fail the fetch with this number (counted from 0), for every container.
    fail_fetch_at: Option<usize>,
    fail_deletes: bool,
    fail_container_delete: bool,
    fetches: Vec<(u64, u64)>,
    single_deletes: Vec<(u64, u64)>,
    batch_deletes: Vec<(u64, Vec<u64>)>,
    counts_asked: Vec<u64>,
    removed: Vec<u64>,
}

impl Platform {
    fn add(&mut self, container: u64, m: Message) {
        self.messages.entry(container).or_default().push(m);
    }

    /// The messages after `after`, by id, at most `limit`, handed out newest first.
    fn page(&self, container: u64, after: u64, limit: u64) -> Vec<Message> {
        let mut all: Vec<Message> = self
            .messages
            .get(&container)
            .map(|v| v.iter().copied().filter(|m| m.id > after).collect())
            .unwrap_or_default();
        all.sort_by_key(|m| m.id);
        all.truncate(limit as usize);
        all.reverse();
        all
    }

    fn remove_ids(&mut self, container: u64, ids: &[u64]) {
        if let Some(v) = self.messages.get_mut(&container) {
            v.retain(|m| !ids.contains(&m.id));
        }
    }

    fn run(&mut self, pass: &mut Pass) -> PassReport {
        loop {
            match pass.action() {
                Action::ListChildren { .. } => {
                    if self.fail_children {
                        pass.on_children_failed();
                    } else {
                        let listed = self.children.clone();
                        pass.on_children(&listed);
                    }
                }
                Action::FetchPage(req) => {
                    let n = self.fetches.iter().filter(|f| f.0 == req.container).count();
                    self.fetches.push((req.container, req.after));
                    if self.fail_fetch_at == Some(n) {
                        pass.on_page_failed();
                    } else {
                        let page = self.page(req.container, req.after, req.limit);
                        pass.on_page(page);
                    }
                }
                Action::Delete { container, call } => {
                    let ok = !self.fail_deletes;
                    match call {
                        DeleteCall::One(id) => {
                            self.single_deletes.push((container, id));
                            if ok {
                                self.remove_ids(container, &[id]);
                            }
                        }
                        DeleteCall::Batch(ids) => {
                            if ok {
                                self.remove_ids(container, &ids);
                            }
                            self.batch_deletes.push((container, ids));
                        }
                    }
                    pass.on_delete_result(ok);
                }
                Action::CountMessages { container } => {
                    self.counts_asked.push(container);
                    let n = self.messages.get(&container).map(|v| v.len()).unwrap_or(0);
                    pass.on_count(Some(n as u64));
                }
                Action::DeleteContainer { container } => {
                    self.removed.push(container);
                    pass.on_container_deleted(!self.fail_container_delete);
                }
                Action::Finished => return pass.report(),
            }
        }
    }
}

fn msg(id: u64, age: i64) -> Message {
    Message::new(id, NOW - age, false)
}

fn expired(container: u64, p: &mut Platform, first_id: u64, n: u64) {
    for i in 0..n {
        // Older messages have smaller ids.
        p.add(container, msg(first_id + i, 10 * HOUR - i as i64));
    }
}

fn sweeper(dry_run: bool) -> Sweeper {
    Sweeper::new(7, RetentionPolicy::new(HOUR, dry_run), Some(99), NOW - 100 * HOUR)
}

fn sweep_once(s: &mut Sweeper, p: &mut Platform) -> (PassReport, Option<u64>) {
    let mut pass = s.begin_pass(NOW);
    let report = p.run(&mut pass);
    let notify = s.finish_pass(report);
    (report, notify)
}

#[test]
fn scenario_many_expired_two_batches() {
    let mut p = Platform::default();
    expired(7, &mut p, 1, 130);
    let mut s = sweeper(false);
    let (report, notify) = sweep_once(&mut s, &mut p);
    assert_eq!(p.batch_deletes.len(), 2);
    assert_eq!(p.batch_deletes[0].1.len(), 100);
    assert_eq!(p.batch_deletes[1].1.len(), 30);
    assert!(p.single_deletes.is_empty());
    assert_eq!(report.deleted, 130);
    assert_eq!(s.stats().last_run, 130);
    assert_eq!(notify, None);
    assert!(p.messages[&7].is_empty());
}

#[test]
fn scenario_single_expired_single_delete() {
    let mut p = Platform::default();
    expired(7, &mut p, 1, 1);
    let mut s = sweeper(false);
    sweep_once(&mut s, &mut p);
    assert_eq!(p.single_deletes, vec![(7, 1)]);
    assert!(p.batch_deletes.is_empty());
    assert_eq!(s.stats().last_run, 1);
}

#[test]
fn scenario_dry_run_deletes_nothing() {
    let mut p = Platform::default();
    expired(7, &mut p, 1, 50);
    let mut s = sweeper(true);
    let (report, _) = sweep_once(&mut s, &mut p);
    assert!(p.single_deletes.is_empty());
    assert!(p.batch_deletes.is_empty());
    assert_eq!(report.deleted, 0);
    assert_eq!(s.stats().last_run, 0);
    assert_eq!(s.stats().runs, 1);
    assert_eq!(p.messages[&7].len(), 50);
}

#[test]
fn scenario_fetch_failure_keeps_what_was_marked() {
    let mut p = Platform::default();
    // 100 expired messages; among the first 50, ten are pinned. Two pages of
    // 25 mark 40 of them, then the third fetch fails.
    for i in 0..100u64 {
        let pinned = i < 50 && i % 5 == 0;
        p.add(7, Message::new(1 + i, NOW - 10 * HOUR + i as i64, pinned));
    }
    p.fail_fetch_at = Some(2);
    let mut s = sweeper(false);
    let mut pass = s.begin_pass(NOW);
    let report = p.run(&mut pass);
    assert!(report.page_failed);
    assert_eq!(p.fetches.len(), 3);
    assert_eq!(report.deleted, 40);
    assert_eq!(p.batch_deletes.len(), 1);
    assert_eq!(p.batch_deletes[0].1.len(), 40);
    assert_eq!(p.messages[&7].len(), 60);
    assert_eq!(s.finish_pass(report), Some(99));
    assert_eq!(s.stats().last_run, 40);
    assert_eq!(s.stats().all_runs, 40);
    assert_eq!(s.stats().runs, 1);
}

#[test]
fn scenario_delete_failure_updates_stats_once() {
    let mut p = Platform::default();
    expired(7, &mut p, 1, 130);
    p.fail_deletes = true;
    let mut s = sweeper(false);
    let (report, notify) = sweep_once(&mut s, &mut p);
    assert!(report.delete_failed);
    // The first batch failed: the second is never attempted.
    assert_eq!(p.batch_deletes.len(), 1);
    assert_eq!(report.deleted, 0);
    assert_eq!(notify, Some(99));
    assert_eq!(s.stats().runs, 1);
    assert_eq!(s.stats().last_run, 0);
    assert_eq!(s.stats().all_runs, 0);
}

#[test]
fn paging_stops_at_first_unexpired_message() {
    let mut p = Platform::default();
    // 30 expired, then 40 recent messages: the second page holds the first
    // recent message, and no third page is fetched.
    expired(7, &mut p, 1, 30);
    for i in 0..40u64 {
        p.add(7, msg(31 + i, HOUR / 2 - i as i64));
    }
    let mut s = sweeper(false);
    let (report, _) = sweep_once(&mut s, &mut p);
    assert_eq!(p.fetches, vec![(7, 0), (7, 25)]);
    assert_eq!(report.deleted, 30);
    assert_eq!(p.messages[&7].len(), 40);
}

#[test]
fn pinned_messages_stay_and_do_not_stop_paging() {
    let mut p = Platform::default();
    for i in 0..60u64 {
        let pinned = i % 10 == 0;
        p.add(7, Message::new(1 + i, NOW - 10 * HOUR + i as i64, pinned));
    }
    p.add(7, msg(61, 0));
    let mut s = sweeper(false);
    let (report, _) = sweep_once(&mut s, &mut p);
    assert_eq!(report.deleted, 54);
    let left: Vec<u64> = p.messages[&7].iter().map(|m| m.id).collect();
    assert_eq!(left, vec![1, 11, 21, 31, 41, 51, 61]);
}

#[test]
fn stats_accumulate_over_passes() {
    let mut p = Platform::default();
    let mut s = sweeper(false);
    let mut sum = 0;
    for (pass, n) in [3u64, 0, 120, 1].iter().enumerate() {
        expired(7, &mut p, 1000 * (pass as u64 + 1), *n);
        let (report, _) = sweep_once(&mut s, &mut p);
        assert_eq!(report.deleted, *n);
        sum += n;
        assert_eq!(s.stats().all_runs, sum);
        assert_eq!(s.stats().last_run, *n);
        assert_eq!(s.stats().runs, pass as u64 + 1);
    }
    assert_eq!(s.stats().all_runs, 124);
    assert_eq!(s.stats().started, NOW - 100 * HOUR);
}

#[test]
fn children_swept_first_and_emptied_ones_deleted_once() {
    let mut p = Platform::default();
    // Child 20 holds only old messages; child 21 keeps a recent one; child
    // 30 belongs to another parent; child 20 is listed twice.
    p.add(20, msg(1, CHILD_MAX_AGE_MS + HOUR));
    p.add(20, msg(2, CHILD_MAX_AGE_MS + 1));
    p.add(21, msg(3, CHILD_MAX_AGE_MS + HOUR));
    p.add(21, msg(4, HOUR));
    p.add(30, msg(5, CHILD_MAX_AGE_MS + HOUR));
    expired(7, &mut p, 100, 2);
    p.children = vec![
        ChildContainer { id: 20, parent_id: Some(7), message_count: 2 },
        ChildContainer { id: 21, parent_id: Some(7), message_count: 2 },
        ChildContainer { id: 30, parent_id: Some(8), message_count: 1 },
        ChildContainer { id: 20, parent_id: Some(7), message_count: 2 },
    ];
    let mut s = sweeper(true);
    let (report, _) = sweep_once(&mut s, &mut p);
    // Children are swept live even when the parent runs dry.
    assert_eq!(p.batch_deletes, vec![(20, vec![1, 2])]);
    assert_eq!(p.single_deletes, vec![(21, 3)]);
    assert_eq!(p.counts_asked, vec![20, 21]);
    assert_eq!(p.removed, vec![20]);
    assert_eq!(p.messages[&30].len(), 1);
    assert_eq!(p.messages[&7].len(), 2);
    assert_eq!(report.deleted, 0);
    assert_eq!(report.child_delete_failures, 0);
    // Children's fetches come before the parent's.
    assert_eq!(p.fetches.last().unwrap().0, 7);
    assert_eq!(p.fetches[0].0, 20);
}

#[test]
fn child_listing_failure_still_sweeps_parent() {
    let mut p = Platform::default();
    expired(7, &mut p, 1, 5);
    p.fail_children = true;
    let mut s = sweeper(false);
    let (report, notify) = sweep_once(&mut s, &mut p);
    assert!(report.child_list_failed);
    assert_eq!(report.deleted, 5);
    assert_eq!(notify, None);
}

#[test]
fn child_delete_failure_is_counted_and_pass_goes_on() {
    let mut p = Platform::default();
    p.add(20, msg(1, CHILD_MAX_AGE_MS + HOUR));
    expired(7, &mut p, 100, 3);
    p.children = vec![ChildContainer { id: 20, parent_id: Some(7), message_count: 1 }];
    p.fail_container_delete = true;
    let mut s = sweeper(false);
    let (report, notify) = sweep_once(&mut s, &mut p);
    assert_eq!(p.removed, vec![20]);
    assert_eq!(report.child_delete_failures, 1);
    assert_eq!(report.deleted, 3);
    assert_eq!(notify, None);
}

#[test]
fn empty_container_fetches_one_page() {
    let mut p = Platform::default();
    let mut s = sweeper(false);
    let (report, _) = sweep_once(&mut s, &mut p);
    assert_eq!(p.fetches, vec![(7, 0)]);
    assert_eq!(report.deleted, 0);
}
