//! Scenario tests for jobs and the scheduler, run against the real
//! recurrence-rule parser.

use std::cell::Cell;
use std::rc::Rc;

use zino_sched::datetime::DateTime;
use zino_sched::json::JsonMap;
use zino_sched::json::Value;
use zino_sched::schedule::CronJob;
use zino_sched::schedule::Job;
use zino_sched::schedule::JobScheduler;
use zino_sched::uuid::Uuid;

/// A callback that counts its invocations, in itself and in the data bag.
struct Counting {
    count: Rc<Cell<u64>>,
}

impl CronJob for Counting {
    fn exec(&self, _id: Uuid, data: &mut JsonMap, _last_tick: DateTime) {
        self.count.set(self.count.get() + 1);
        let next = match data.get("count") {
            Some(Value::UInt(n)) => *n + 1,
            _ => 1,
        };
        data.insert("count".to_string(), Value::UInt(next));
    }
}

fn counting_job(expr: &str) -> (Job<Counting>, Rc<Cell<u64>>) {
    let count = Rc::new(Cell::new(0));
    let job = Job::try_new(expr, Counting { count: count.clone() }).expect("valid cron expression");
    (job, count)
}

// A whole minute boundary: 2001-09-09 01:47:00 UTC + padding to a minute.
const BASE: i64 = 1_000_000_020_000;

#[test]
fn first_tick_is_silent() {
    let (mut job, count) = counting_job("* * * * * *");
    assert_eq!(job.last_tick(), None);
    let now = DateTime::from_millis(BASE);
    let invoked = job.tick(now);
    assert_eq!(invoked, 0);
    assert_eq!(count.get(), 0);
    assert_eq!(job.last_tick(), Some(now));
}

#[test]
fn catch_up_runs_once_per_missed_second() {
    let (mut job, count) = counting_job("* * * * * *");
    job.set_last_tick(Some(DateTime::from_millis(BASE)));
    let invoked = job.tick(DateTime::from_millis(BASE + 5_000));
    assert_eq!(invoked, 5);
    assert_eq!(count.get(), 5);
    assert_eq!(job.last_tick(), Some(DateTime::from_millis(BASE + 5_000)));
}

#[test]
fn catch_up_counts_accumulate_in_data_bag() {
    let (mut job, _count) = counting_job("* * * * * *");
    job.set_last_tick(Some(DateTime::from_millis(BASE)));
    job.tick(DateTime::from_millis(BASE + 2_000));
    job.tick(DateTime::from_millis(BASE + 3_000));
    match job.data().get("count") {
        Some(Value::UInt(n)) => assert_eq!(*n, 3),
        other => panic!("unexpected data bag entry: {:?}", other),
    }
}

#[test]
fn nothing_due_between_whole_seconds() {
    let (mut job, count) = counting_job("* * * * * *");
    job.set_last_tick(Some(DateTime::from_millis(BASE)));
    // The next trigger is at BASE + 1000; 500 ms later nothing is due.
    let invoked = job.tick(DateTime::from_millis(BASE + 500));
    assert_eq!(invoked, 0);
    assert_eq!(count.get(), 0);
}

#[test]
fn watermark_follows_every_tick() {
    let (mut job, _count) = counting_job("* * * * * *");
    let n1 = DateTime::from_millis(BASE + 1_000);
    let n2 = DateTime::from_millis(BASE + 4_000);
    job.tick(n1);
    assert_eq!(job.last_tick(), Some(n1));
    job.tick(n2);
    assert_eq!(job.last_tick(), Some(n2));
}

#[test]
fn async_job_is_a_no_op_on_the_sync_path() {
    let mut job: Job<Counting> = Job::try_new_async("* * * * * *").expect("valid cron expression");
    job.set_last_tick(Some(DateTime::from_millis(BASE)));
    let now = DateTime::from_millis(BASE + 5_000);
    let invoked = job.tick(now);
    assert_eq!(invoked, 0);
    assert_eq!(job.last_tick(), Some(now));
}

#[test]
fn sync_job_is_a_no_op_on_the_async_path() {
    let (mut job, count) = counting_job("* * * * * *");
    job.set_last_tick(Some(DateTime::from_millis(BASE)));
    let now = DateTime::from_millis(BASE + 5_000);
    let owed = job.tick_async_prepare(now);
    assert_eq!(owed, 0);
    assert_eq!(count.get(), 0);
    assert_eq!(job.last_tick(), Some(now));
}

#[test]
fn async_job_owes_one_invocation_per_missed_second() {
    let mut job: Job<Counting> = Job::try_new_async("* * * * * *").expect("valid cron expression");
    job.set_last_tick(Some(DateTime::from_millis(BASE)));
    let owed = job.tick_async_prepare(DateTime::from_millis(BASE + 4_000));
    assert_eq!(owed, 4);
}

#[test]
fn invalid_expression_is_refused() {
    let count = Rc::new(Cell::new(0));
    let job = Job::try_new("not a cron expression", Counting { count });
    assert!(job.is_none());
    let job: Option<Job<Counting>> = Job::try_new_async("61 * * * * *");
    assert!(job.is_none());
}

#[test]
fn idle_scheduler_waits_the_default() {
    let scheduler: JobScheduler<Counting> = JobScheduler::new();
    let wait = scheduler.time_till_next_job_at(DateTime::from_millis(BASE));
    assert_eq!(wait.as_millis(), 500);
    let wait = scheduler.time_till_next_job();
    assert_eq!(wait.as_millis(), 500);
}

#[test]
fn wait_is_the_minimum_across_jobs() {
    let mut scheduler: JobScheduler<Counting> = JobScheduler::new();
    let (ten, _c1) = counting_job("0/10 * * * * *");
    let (three, _c2) = counting_job("0/3 * * * * *");
    scheduler.add(ten);
    scheduler.add(three);
    // BASE is a whole minute, so the next triggers are 10 s and 3 s away.
    let wait = scheduler.time_till_next_job_at(DateTime::from_millis(BASE));
    assert_eq!(wait.as_millis(), 3_000);
}

#[test]
fn exhausted_recurrence_reports_no_wait() {
    let mut scheduler: JobScheduler<Counting> = JobScheduler::new();
    let (past, _c) = counting_job("0 0 0 1 1 * 2000");
    scheduler.add(past);
    let wait = scheduler.time_till_next_job_at(DateTime::from_millis(BASE));
    assert_eq!(wait.as_millis(), 0);
}

#[test]
fn removal_prevents_future_invocations() {
    let mut scheduler: JobScheduler<Counting> = JobScheduler::new();
    let (first, first_count) = counting_job("* * * * * *");
    let (second, second_count) = counting_job("* * * * * *");
    let first_id = scheduler.add(first);
    scheduler.add(second);
    let counts = scheduler.tick_at(DateTime::from_millis(BASE));
    assert_eq!(counts, vec![0, 0]);
    assert!(scheduler.remove(first_id));
    assert!(!scheduler.remove(first_id));
    assert_eq!(scheduler.job_count(), 1);
    let counts = scheduler.tick_at(DateTime::from_millis(BASE + 3_000));
    assert_eq!(counts, vec![3]);
    assert_eq!(first_count.get(), 0);
    assert_eq!(second_count.get(), 3);
}

#[test]
fn scheduler_ticks_every_job() {
    let mut scheduler: JobScheduler<Counting> = JobScheduler::new();
    let (first, first_count) = counting_job("* * * * * *");
    let (second, second_count) = counting_job("* * * * * *");
    scheduler.add(first);
    scheduler.add(second);
    scheduler.tick_at(DateTime::from_millis(BASE));
    let counts = scheduler.tick_at(DateTime::from_millis(BASE + 2_000));
    assert_eq!(counts, vec![2, 2]);
    assert_eq!(first_count.get(), 2);
    assert_eq!(second_count.get(), 2);
}

#[test]
fn clock_driven_tick_seeds_the_watermark() {
    let mut scheduler: JobScheduler<Counting> = JobScheduler::new();
    let (job, count) = counting_job("* * * * * *");
    scheduler.add(job);
    let counts = scheduler.tick();
    // The first tick is silent whatever the clock reads.
    assert_eq!(counts, vec![0]);
    assert_eq!(count.get(), 0);
}

#[test]
fn callback_receives_the_prior_watermark() {
    struct SeesPrior {
        seen: Rc<Cell<i64>>,
    }
    impl CronJob for SeesPrior {
        fn exec(&self, _id: Uuid, _data: &mut JsonMap, last_tick: DateTime) {
            self.seen.set(last_tick.as_millis());
        }
    }
    let seen = Rc::new(Cell::new(0));
    let mut job =
        Job::try_new("* * * * * *", SeesPrior { seen: seen.clone() }).expect("valid expression");
    job.set_last_tick(Some(DateTime::from_millis(BASE)));
    job.tick(DateTime::from_millis(BASE + 2_000));
    // Every catch-up invocation gets the watermark before the tick, not
    // the trigger instant.
    assert_eq!(seen.get(), BASE);
}

#[test]
fn job_data_accessors_work() {
    let (mut job, _count) = counting_job("* * * * * *");
    assert!(job.data().is_empty());
    job.data_mut().insert("cursor".to_string(), Value::Int(7));
    match job.data().get("cursor") {
        Some(Value::Int(n)) => assert_eq!(*n, 7),
        other => panic!("unexpected data bag entry: {:?}", other),
    }
    let id = job.id();
    assert_eq!(id, job.id());
}
