//! Scheduler for recurring jobs driven by cron-style recurrence rules.
//!
//! A [`Job`] binds an identifier, a data bag, a recurrence rule and a
//! callback, and replays every trigger instant between its watermark and
//! "now" when it is ticked; a [`JobScheduler`] owns a collection of jobs
//! and computes how long its driver may sleep until the next due instant.
//!
//! Trigger instants are computed in UTC, at whole-second granularity, from
//! the `cron` crate's reading of the recurrence expression.

use vstd::prelude::*;

use crate::datetime::DateTime;
use crate::datetime::Duration;
use crate::json::JsonMap;
use crate::uuid::Uuid;
use crate::IDLE_POLL_MILLIS;

use std::str::FromStr;

verus! {

/// Whether a cron expression is accepted by the recurrence-rule parser.
pub uninterp spec fn is_valid_cron(expr: Seq<char>) -> bool;

/// The first trigger instant of the recurrence rule `expr` strictly after
/// the instant `t` (both in milliseconds since the Unix epoch, UTC), or
/// `None` when the rule has no such instant or `expr` does not parse.
pub uninterp spec fn next_occurrence_after(expr: Seq<char>, t: i64) -> Option<i64>;

/// Relies on `cron::Schedule::from_str`: whether it accepts the
/// expression depends on the expression's characters alone.
#[verifier::external_body]
fn cron_expr_valid(expr: &str) -> (r: bool)
    ensures
        r == is_valid_cron(expr@),
{
    cron::Schedule::from_str(expr).is_ok()
}

/// Relies on `cron::Schedule::from_str` and `cron::Schedule::after`: the
/// first trigger instant after `t` depends on the expression and on `t`
/// alone (queried in UTC), and `after` yields instants strictly after its
/// argument.
#[verifier::external_body]
fn next_after(expr: &str, t: i64) -> (r: Option<i64>)
    ensures
        r == next_occurrence_after(expr@, t),
        r matches Some(e) ==> e > t,
{
    let schedule = match cron::Schedule::from_str(expr) {
        Ok(s) => s,
        Err(_) => return None,
    };
    let from = match chrono::DateTime::<chrono::Utc>::from_timestamp_millis(t) {
        Some(dt) => dt,
        None => return None,
    };
    // The search is seeded one second past `from`; bail out where that
    // instant has no representation, since `after` would abort there.
    if chrono::DateTime::<chrono::Utc>::from_timestamp_millis(t.saturating_add(1000)).is_none() {
        return None;
    }
    schedule.after(&from).next().map(|dt| dt.timestamp_millis())
}

/// How many trigger instants of `expr` lie strictly after `prior` and at
/// or before `now`: the number of catch-up invocations a tick owes.
pub open spec fn due_count(expr: Seq<char>, prior: i64, now: i64) -> nat
    decreases now - prior,
{
    match next_occurrence_after(expr, prior) {
        None => 0,
        Some(e) => if e > now || e <= prior {
            0
        } else {
            1 + due_count(expr, e, now)
        },
    }
}

/// The number of due instants never exceeds the width of the window.
pub proof fn lemma_due_count_bound(expr: Seq<char>, prior: i64, now: i64)
    ensures
        due_count(expr, prior, now) <= if now > prior {
            now - prior
        } else {
            0
        },
    decreases now - prior,
{
    match next_occurrence_after(expr, prior) {
        None => {}
        Some(e) => {
            if e > now || e <= prior {
            } else {
                lemma_due_count_bound(expr, e, now);
            }
        }
    }
}

/// A recurring job's callback: what runs, with the job's identifier, its
/// data bag and the watermark before the tick, once per due instant.
///
/// The host implements this trait; the scheduler states nothing about
/// what a callback does to the data bag.  The callback itself is shared
/// immutably — like the plain function a host would register — so a tick
/// never changes the executable unit; state that must accumulate across
/// invocations belongs in the data bag.
pub trait CronJob {
    /// Performs the job's work for one due instant.
    fn exec(&self, id: Uuid, data: &mut JsonMap, last_tick: DateTime);
}

/// The executable unit of a job: a synchronous callback held in place, or
/// the marker of an asynchronous callback that only an asynchronous driver
/// (outside this crate's verified core) may invoke.
pub enum ExecutableJob<J> {
    /// A synchronous callback.
    Fn(J),
    /// The job is asynchronous; its callback lives with the driver.
    AsyncFn,
}

/// A schedulable job: an identifier, a data bag, a recurrence rule, an
/// executable unit, and the last-tick watermark.
pub struct Job<J> {
    id: Uuid,
    data: JsonMap,
    cron_expr: String,
    run: ExecutableJob<J>,
    last_tick: Option<DateTime>,
}

impl<J> Job<J> {
    /// The job's identifier, for contracts.
    pub closed spec fn spec_id(&self) -> Uuid {
        self.id
    }

    /// The job's data bag, for contracts.
    pub closed spec fn spec_data(&self) -> JsonMap {
        self.data
    }

    /// The job's recurrence expression, for contracts.
    pub closed spec fn spec_expr(&self) -> Seq<char> {
        self.cron_expr@
    }

    /// Whether the job's executable unit is asynchronous, for contracts.
    pub closed spec fn spec_is_async(&self) -> bool {
        self.run is AsyncFn
    }

    /// The job's executable unit, for contracts.
    pub closed spec fn spec_run(&self) -> ExecutableJob<J> {
        self.run
    }

    /// The job's watermark, for contracts.
    pub closed spec fn spec_last_tick(&self) -> Option<DateTime> {
        self.last_tick
    }
}

/// What every tick does to a job besides running callbacks: the watermark
/// moves to the tick's `now`, and identifier, recurrence rule and
/// executable kind stay what they were.
pub open spec fn spec_ticked<J>(pre: Job<J>, post: Job<J>, now: DateTime) -> bool {
    &&& post.spec_last_tick() == Some(now)
    &&& post.spec_id() == pre.spec_id()
    &&& post.spec_expr() == pre.spec_expr()
    &&& post.spec_is_async() == pre.spec_is_async()
    &&& post.spec_run() == pre.spec_run()
}

/// What the synchronous tick leaves alone wherever it invokes nothing:
/// before the first tick, and for an asynchronous job, the data bag
/// stays what it was.
pub open spec fn spec_tick_untouched<J>(pre: Job<J>, post: Job<J>) -> bool {
    (pre.spec_last_tick() is None || pre.spec_is_async()) ==> post.spec_data() == pre.spec_data()
}

/// How many invocations the synchronous tick performs: none before the
/// first tick and none for an asynchronous job, else one per due instant.
pub open spec fn spec_tick_invocations<J>(pre: Job<J>, now: DateTime) -> nat {
    match pre.spec_last_tick() {
        None => 0,
        Some(prior) => if pre.spec_is_async() {
            0
        } else {
            due_count(pre.spec_expr(), prior.millis, now.millis)
        },
    }
}

/// How many invocations the asynchronous path owes: the mirror image of
/// [`spec_tick_invocations`].
pub open spec fn spec_tick_async_invocations<J>(pre: Job<J>, now: DateTime) -> nat {
    match pre.spec_last_tick() {
        None => 0,
        Some(prior) => if pre.spec_is_async() {
            due_count(pre.spec_expr(), prior.millis, now.millis)
        } else {
            0
        },
    }
}

impl<J: CronJob> Job<J> {
    /// Creates a job with a synchronous callback.
    ///
    /// The expression must be a valid cron expression; [`Job::try_new`]
    /// checks that instead of demanding it.
    pub fn new(cron_expr: &str, exec: J) -> (job: Job<J>)
        requires
            is_valid_cron(cron_expr@),
        ensures
            job.spec_expr() == cron_expr@,
            !job.spec_is_async(),
            job.spec_run() == ExecutableJob::<J>::Fn(exec),
            job.spec_last_tick() is None,
            job.spec_data()@ == Seq::<(String, crate::json::Value)>::empty(),
            job.spec_data().spec_wf(),
    {
        Job {
            id: crate::uuid::generate(),
            data: JsonMap::new(),
            cron_expr: cron_expr.to_owned(),
            run: ExecutableJob::Fn(exec),
            last_tick: None,
        }
    }

    /// Creates a job with a synchronous callback, or returns `None` when
    /// the expression is not a valid cron expression.
    pub fn try_new(cron_expr: &str, exec: J) -> (r: Option<Job<J>>)
        ensures
            r is Some <==> is_valid_cron(cron_expr@),
            r matches Some(job) ==> {
                &&& job.spec_expr() == cron_expr@
                &&& !job.spec_is_async()
                &&& job.spec_run() == ExecutableJob::<J>::Fn(exec)
                &&& job.spec_last_tick() is None
                &&& job.spec_data()@ == Seq::<(String, crate::json::Value)>::empty()
                &&& job.spec_data().spec_wf()
            },
    {
        if cron_expr_valid(cron_expr) {
            Some(Self::new(cron_expr, exec))
        } else {
            None
        }
    }

    /// Creates a job whose callback is asynchronous and therefore lives
    /// with the asynchronous driver, outside this crate's verified core.
    ///
    /// The expression must be a valid cron expression;
    /// [`Job::try_new_async`] checks that instead of demanding it.
    pub fn new_async(cron_expr: &str) -> (job: Job<J>)
        requires
            is_valid_cron(cron_expr@),
        ensures
            job.spec_expr() == cron_expr@,
            job.spec_is_async(),
            job.spec_last_tick() is None,
            job.spec_data()@ == Seq::<(String, crate::json::Value)>::empty(),
            job.spec_data().spec_wf(),
    {
        Job {
            id: crate::uuid::generate(),
            data: JsonMap::new(),
            cron_expr: cron_expr.to_owned(),
            run: ExecutableJob::AsyncFn,
            last_tick: None,
        }
    }

    /// Creates an asynchronous job, or returns `None` when the expression
    /// is not a valid cron expression.
    pub fn try_new_async(cron_expr: &str) -> (r: Option<Job<J>>)
        ensures
            r is Some <==> is_valid_cron(cron_expr@),
            r matches Some(job) ==> {
                &&& job.spec_expr() == cron_expr@
                &&& job.spec_is_async()
                &&& job.spec_last_tick() is None
                &&& job.spec_data()@ == Seq::<(String, crate::json::Value)>::empty()
                &&& job.spec_data().spec_wf()
            },
    {
        if cron_expr_valid(cron_expr) {
            Some(Self::new_async(cron_expr))
        } else {
            None
        }
    }

    /// The job's identifier.
    pub fn id(&self) -> (r: Uuid)
        ensures
            r == self.spec_id(),
    {
        self.id
    }

    /// A reference to the job's data bag.
    pub fn data(&self) -> (r: &JsonMap)
        ensures
            *r == self.spec_data(),
    {
        &self.data
    }

    /// A mutable reference to the job's data bag.
    pub fn data_mut(&mut self) -> (r: &mut JsonMap)
        ensures
            *r == old(self).spec_data(),
            final(self).spec_data() == *final(r),
            final(self).spec_id() == old(self).spec_id(),
            final(self).spec_expr() == old(self).spec_expr(),
            final(self).spec_is_async() == old(self).spec_is_async(),
            final(self).spec_run() == old(self).spec_run(),
            final(self).spec_last_tick() == old(self).spec_last_tick(),
    {
        &mut self.data
    }

    /// The job's watermark: `None` until the first tick.
    pub fn last_tick(&self) -> (r: Option<DateTime>)
        ensures
            r == self.spec_last_tick(),
    {
        self.last_tick
    }

    /// Seeds or overrides the watermark, e.g. on restore.
    pub fn set_last_tick(&mut self, last_tick: Option<DateTime>)
        ensures
            final(self).spec_last_tick() == last_tick,
            final(self).spec_id() == old(self).spec_id(),
            final(self).spec_expr() == old(self).spec_expr(),
            final(self).spec_is_async() == old(self).spec_is_async(),
            final(self).spec_run() == old(self).spec_run(),
            final(self).spec_data() == old(self).spec_data(),
    {
        self.last_tick = last_tick;
    }

    /// Invokes the synchronous callback once, if there is one.
    fn invoke_sync(&mut self, prior: DateTime)
        requires
            !old(self).spec_is_async(),
        ensures
            final(self).spec_id() == old(self).spec_id(),
            final(self).spec_expr() == old(self).spec_expr(),
            final(self).spec_is_async() == old(self).spec_is_async(),
            final(self).spec_last_tick() == old(self).spec_last_tick(),
            final(self).spec_run() == old(self).spec_run(),
    {
        let id = self.id;
        match &self.run {
            ExecutableJob::Fn(exec) => {
                exec.exec(id, &mut self.data, prior);
            }
            ExecutableJob::AsyncFn => {}
        }
    }

    /// Executes missed runs: replays every trigger instant strictly after
    /// the watermark and at or before `now`, invoking the synchronous
    /// callback once per instant with the watermark as its last-tick
    /// argument, then moves the watermark to `now`.
    ///
    /// The first tick is silent, and an asynchronous job is never invoked
    /// on this path.  Returns the number of invocations performed; the
    /// executable unit is never changed, and the data bag changes only
    /// where an invocation happens.
    pub fn tick(&mut self, now: DateTime) -> (invoked: u64)
        ensures
            spec_ticked(*old(self), *final(self), now),
            invoked == spec_tick_invocations(*old(self), now),
            old(self).spec_last_tick() is None ==> final(self).spec_data() == old(
                self).spec_data(),
            old(self).spec_is_async() ==> final(self).spec_data() == old(self).spec_data(),
    {
        let now_ms = now.millis;
        let mut invoked: u64 = 0;
        let is_sync = match &self.run {
            ExecutableJob::Fn(_) => true,
            ExecutableJob::AsyncFn => false,
        };
        if let Some(prior) = self.last_tick {
            if is_sync {
                let prior_ms = prior.millis;
                let ghost expr = self.spec_expr();
                let ghost total = due_count(expr, prior_ms, now_ms);
                proof {
                    lemma_due_count_bound(expr, prior_ms, now_ms);
                }
                let mut cursor = prior_ms;
                loop
                    invariant_except_break
                        self.spec_expr() == expr,
                        !self.spec_is_async(),
                        self.spec_id() == old(self).spec_id(),
                        self.spec_last_tick() == old(self).spec_last_tick(),
                        self.spec_run() == old(self).spec_run(),
                        invoked + due_count(expr, cursor, now_ms) == total,
                        total <= u64::MAX,
                    ensures
                        self.spec_expr() == expr,
                        self.spec_id() == old(self).spec_id(),
                        !self.spec_is_async(),
                        self.spec_last_tick() == old(self).spec_last_tick(),
                        self.spec_run() == old(self).spec_run(),
                        invoked == total,
                    decreases now_ms - cursor,
                {
                    match next_after(self.cron_expr.as_str(), cursor) {
                        None => {
                            break;
                        }
                        Some(e) => {
                            if e > now_ms {
                                break;
                            }
                            self.invoke_sync(prior);
                            invoked = invoked + 1;
                            cursor = e;
                        }
                    }
                }
            }
        }
        self.last_tick = Some(now);
        invoked
    }

    /// The decision half of the asynchronous tick: counts the due
    /// instants exactly as [`Job::tick`] does, moves the watermark to
    /// `now`, and returns how many times the asynchronous driver must
    /// invoke the job's callback (with the watermark it read before this
    /// call).  A synchronous job owes no asynchronous invocation.
    ///
    /// This call never touches the data bag; the driver performs the
    /// invocations it reports.
    pub fn tick_async_prepare(&mut self, now: DateTime) -> (to_invoke: u64)
        ensures
            spec_ticked(*old(self), *final(self), now),
            to_invoke == spec_tick_async_invocations(*old(self), now),
            final(self).spec_data() == old(self).spec_data(),
            final(self).spec_run() == old(self).spec_run(),
    {
        let now_ms = now.millis;
        let mut to_invoke: u64 = 0;
        let is_async = match &self.run {
            ExecutableJob::Fn(_) => false,
            ExecutableJob::AsyncFn => true,
        };
        if let Some(prior) = self.last_tick {
            if is_async {
                let prior_ms = prior.millis;
                let ghost expr = self.spec_expr();
                let ghost total = due_count(expr, prior_ms, now_ms);
                proof {
                    lemma_due_count_bound(expr, prior_ms, now_ms);
                }
                let mut cursor = prior_ms;
                loop
                    invariant_except_break
                        self.spec_expr() == expr,
                        self.spec_id() == old(self).spec_id(),
                        self.spec_is_async() == old(self).spec_is_async(),
                        self.spec_last_tick() == old(self).spec_last_tick(),
                        self.spec_data() == old(self).spec_data(),
                        self.spec_run() == old(self).spec_run(),
                        to_invoke + due_count(expr, cursor, now_ms) == total,
                        total <= u64::MAX,
                    ensures
                        self.spec_expr() == expr,
                        self.spec_id() == old(self).spec_id(),
                        self.spec_is_async() == old(self).spec_is_async(),
                        self.spec_last_tick() == old(self).spec_last_tick(),
                        self.spec_data() == old(self).spec_data(),
                        self.spec_run() == old(self).spec_run(),
                        to_invoke == total,
                    decreases now_ms - cursor,
                {
                    match next_after(self.cron_expr.as_str(), cursor) {
                        None => {
                            proof {
                                assert(due_count(expr, cursor, now_ms) == 0);
                            }
                            break;
                        }
                        Some(e) => {
                            if e > now_ms {
                                proof {
                                    assert(due_count(expr, cursor, now_ms) == 0);
                                }
                                break;
                            }
                            proof {
                                assert(due_count(expr, cursor, now_ms) == 1 + due_count(
                                    expr,
                                    e,
                                    now_ms,
                                ));
                            }
                            to_invoke = to_invoke + 1;
                            cursor = e;
                        }
                    }
                }
            }
        }
        self.last_tick = Some(now);
        to_invoke
    }
}

/// The first index of a job bearing `id`, or `-1` when none does.
pub open spec fn spec_find_job<J>(jobs: Seq<Job<J>>, id: Uuid) -> int
    decreases jobs.len(),
{
    if jobs.len() == 0 {
        -1
    } else if jobs[0].spec_id() == id {
        0
    } else {
        let rest = spec_find_job(jobs.drop_first(), id);
        if rest == -1 {
            -1
        } else {
            rest + 1
        }
    }
}

/// What `spec_find_job` returns: the first job bearing `id`, if any.
pub proof fn lemma_find_job<J>(jobs: Seq<Job<J>>, id: Uuid)
    ensures
        spec_find_job(jobs, id) == -1 ==> forall|j: int|
            0 <= j < jobs.len() ==> jobs[j].spec_id() != id,
        spec_find_job(jobs, id) != -1 ==> {
            let k = spec_find_job(jobs, id);
            &&& 0 <= k < jobs.len()
            &&& jobs[k].spec_id() == id
            &&& forall|j: int| 0 <= j < k ==> jobs[j].spec_id() != id
        },
    decreases jobs.len(),
{
    if jobs.len() > 0 && jobs[0].spec_id() != id {
        lemma_find_job(jobs.drop_first(), id);
        let rest = spec_find_job(jobs.drop_first(), id);
        if rest == -1 {
            assert(forall|j: int|
                1 <= j < jobs.len() ==> jobs[j].spec_id() == jobs.drop_first()[j - 1].spec_id());
        } else {
            assert(jobs[rest + 1].spec_id() == jobs.drop_first()[rest].spec_id());
            assert(forall|j: int|
                1 <= j < rest + 1 ==> jobs[j].spec_id() == jobs.drop_first()[j - 1].spec_id());
        }
    }
}

/// The wait until the next trigger of `expr`, measured from `now`.
pub open spec fn spec_delta(expr: Seq<char>, now: i64) -> Option<int> {
    match next_occurrence_after(expr, now) {
        None => None,
        Some(e) => Some(e - now),
    }
}

/// The least wait among the owned jobs' next triggers, or `None` when no
/// job has one.
pub open spec fn spec_min_delta<J>(jobs: Seq<Job<J>>, now: i64) -> Option<int>
    decreases jobs.len(),
{
    if jobs.len() == 0 {
        None
    } else {
        let rest = spec_min_delta(jobs.drop_first(), now);
        match spec_delta(jobs[0].spec_expr(), now) {
            None => rest,
            Some(d) => match rest {
                None => Some(d),
                Some(m) => if d < m {
                    Some(d)
                } else {
                    Some(m)
                },
            },
        }
    }
}

/// What `time_till_next_job` reports at the instant `now`: the idle
/// default of 500 ms on an empty scheduler, the least wait among the
/// owned jobs' next triggers otherwise, zero when no owned job has a
/// trigger left, and the idle default again when the wait cannot be
/// represented.
pub open spec fn spec_time_till<J>(jobs: Seq<Job<J>>, now: i64) -> u64 {
    if jobs.len() == 0 {
        IDLE_POLL_MILLIS
    } else {
        match spec_min_delta(jobs, now) {
            None => 0,
            Some(d) => if 0 <= d <= u64::MAX {
                d as u64
            } else {
                IDLE_POLL_MILLIS
            },
        }
    }
}

/// What a clock-driven tick did to one job: there was an observed
/// instant at which the job was ticked and owed exactly `invoked`
/// synchronous invocations.
pub open spec fn spec_clock_ticked<J>(pre: Job<J>, post: Job<J>, invoked: u64) -> bool {
    exists|n: DateTime| spec_ticked(pre, post, n) && invoked == spec_tick_invocations(pre, n)
}

/// A scheduler: owns an unordered collection of jobs, drives catch-up
/// execution across all of them, and reports how long its driver may
/// sleep until the next due instant.
pub struct JobScheduler<J> {
    jobs: Vec<Job<J>>,
}

impl<J> JobScheduler<J> {
    /// The owned jobs, in insertion order, for contracts.
    pub closed spec fn spec_jobs(&self) -> Seq<Job<J>> {
        self.jobs@
    }

    /// Creates an empty scheduler.
    pub fn new() -> (r: JobScheduler<J>)
        ensures
            r.spec_jobs().len() == 0,
    {
        JobScheduler { jobs: Vec::new() }
    }

    /// The number of owned jobs.
    pub fn job_count(&self) -> (r: usize)
        ensures
            r == self.spec_jobs().len(),
    {
        self.jobs.len()
    }
}

impl<J> Default for JobScheduler<J> {
    /// An empty scheduler.
    fn default() -> (r: JobScheduler<J>)
        ensures
            r.spec_jobs().len() == 0,
    {
        JobScheduler { jobs: Vec::new() }
    }
}

impl<J: CronJob> JobScheduler<J> {
    /// Adds a job and returns its identifier.
    pub fn add(&mut self, job: Job<J>) -> (id: Uuid)
        ensures
            final(self).spec_jobs() == old(self).spec_jobs().push(job),
            id == job.spec_id(),
    {
        let job_id = job.id();
        self.jobs.push(job);
        job_id
    }

    /// Removes the first job bearing `job_id`; returns whether one was
    /// found and removed.
    pub fn remove(&mut self, job_id: Uuid) -> (removed: bool)
        ensures
            removed == (spec_find_job(old(self).spec_jobs(), job_id) != -1),
            removed ==> final(self).spec_jobs() == old(self).spec_jobs().remove(
                spec_find_job(old(self).spec_jobs(), job_id),
            ),
            !removed ==> final(self).spec_jobs() == old(self).spec_jobs(),
    {
        let n = self.jobs.len();
        let mut i: usize = 0;
        while i < n
            invariant
                n == self.spec_jobs().len(),
                i <= n,
                self == old(self),
                forall|j: int| 0 <= j < i ==> self.spec_jobs()[j].spec_id() != job_id,
            decreases n - i,
        {
            if self.jobs[i].id == job_id {
                proof {
                    lemma_find_job(self.spec_jobs(), job_id);
                }
                self.jobs.remove(i);
                return true;
            }
            i += 1;
        }
        proof {
            lemma_find_job(self.spec_jobs(), job_id);
        }
        false
    }

    /// A mutable reference to the job at `index`, for a driver that must
    /// pair a job with its asynchronous callback.
    pub fn job_at_mut(&mut self, index: usize) -> (job: &mut Job<J>)
        requires
            index < old(self).spec_jobs().len(),
        ensures
            *job == old(self).spec_jobs()[index as int],
            final(self).spec_jobs() == old(self).spec_jobs().update(
                index as int,
                *final(job),
            ),
    {
        &mut self.jobs[index]
    }

    /// Ticks the job at `index` at the instant `now`.
    fn tick_job_at(jobs: &mut Vec<Job<J>>, index: usize, now: DateTime) -> (invoked: u64)
        requires
            index < old(jobs)@.len(),
        ensures
            final(jobs)@.len() == old(jobs)@.len(),
            spec_ticked(old(jobs)@[index as int], final(jobs)@[index as int], now),
            invoked == spec_tick_invocations(old(jobs)@[index as int], now),
            spec_tick_untouched(old(jobs)@[index as int], final(jobs)@[index as int]),
            forall|j: int|
                0 <= j < final(jobs)@.len() && j != index ==> final(jobs)@[j] == old(jobs)@[j],
    {
        let job = &mut jobs[index];
        job.tick(now)
    }

    /// Ticks every owned job once, in iteration order, reading the clock
    /// afresh for each; the per-job behaviour is [`Job::tick`]'s, each at
    /// the instant its own tick observed.  Returns, per job, how many
    /// invocations that tick performed.
    pub fn tick(&mut self) -> (counts: Vec<u64>)
        ensures
            final(self).spec_jobs().len() == old(self).spec_jobs().len(),
            counts@.len() == old(self).spec_jobs().len(),
            forall|i: int| #![trigger final(self).spec_jobs()[i]]
                0 <= i < old(self).spec_jobs().len() ==> {
                    &&& spec_clock_ticked(
                        old(self).spec_jobs()[i],
                        final(self).spec_jobs()[i],
                        counts@[i],
                    )
                    &&& final(self).spec_jobs()[i].spec_last_tick() is Some
                    &&& spec_tick_untouched(old(self).spec_jobs()[i], final(self).spec_jobs()[i])
                },
    {
        let n = self.jobs.len();
        let mut counts: Vec<u64> = Vec::new();
        let mut i: usize = 0;
        while i < n
            invariant
                n == old(self).spec_jobs().len(),
                self.spec_jobs().len() == n,
                i <= n,
                counts@.len() == i,
                forall|j: int| #![trigger self.spec_jobs()[j]]
                    0 <= j < i ==> {
                        &&& spec_clock_ticked(
                            old(self).spec_jobs()[j],
                            self.spec_jobs()[j],
                            counts@[j],
                        )
                        &&& self.spec_jobs()[j].spec_last_tick() is Some
                        &&& spec_tick_untouched(old(self).spec_jobs()[j], self.spec_jobs()[j])
                    },
                forall|j: int| i <= j < n ==> self.spec_jobs()[j] == old(self).spec_jobs()[j],
            decreases n - i,
        {
            let now = crate::datetime::now();
            let invoked = Self::tick_job_at(&mut self.jobs, i, now);
            counts.push(invoked);
            proof {
                assert(spec_ticked(old(self).spec_jobs()[i as int], self.spec_jobs()[i as int], now)
                    && counts@[i as int] == spec_tick_invocations(
                    old(self).spec_jobs()[i as int],
                    now,
                ));
            }
            i += 1;
        }
        counts
    }

    /// Ticks every owned job once at the same instant `now`.  Returns,
    /// per job, how many invocations that tick performed: exactly the
    /// job's due count at `now`.
    pub fn tick_at(&mut self, now: DateTime) -> (counts: Vec<u64>)
        ensures
            final(self).spec_jobs().len() == old(self).spec_jobs().len(),
            counts@.len() == old(self).spec_jobs().len(),
            forall|i: int| #![trigger counts@[i]]
                0 <= i < old(self).spec_jobs().len() ==> counts@[i] == spec_tick_invocations(
                    old(self).spec_jobs()[i],
                    now,
                ),
            forall|i: int| #![trigger final(self).spec_jobs()[i]]
                0 <= i < old(self).spec_jobs().len() ==> spec_ticked(
                    old(self).spec_jobs()[i],
                    final(self).spec_jobs()[i],
                    now,
                ) && spec_tick_untouched(old(self).spec_jobs()[i], final(self).spec_jobs()[i]),
    {
        let n = self.jobs.len();
        let mut counts: Vec<u64> = Vec::new();
        let mut i: usize = 0;
        while i < n
            invariant
                n == old(self).spec_jobs().len(),
                self.spec_jobs().len() == n,
                i <= n,
                counts@.len() == i,
                forall|j: int| #![trigger counts@[j]]
                    0 <= j < i ==> counts@[j] == spec_tick_invocations(
                        old(self).spec_jobs()[j],
                        now,
                    ),
                forall|j: int| #![trigger self.spec_jobs()[j]]
                    0 <= j < i ==> spec_ticked(old(self).spec_jobs()[j], self.spec_jobs()[j], now)
                        && spec_tick_untouched(old(self).spec_jobs()[j], self.spec_jobs()[j]),
                forall|j: int| i <= j < n ==> self.spec_jobs()[j] == old(self).spec_jobs()[j],
            decreases n - i,
        {
            let invoked = Self::tick_job_at(&mut self.jobs, i, now);
            counts.push(invoked);
            i += 1;
        }
        counts
    }

    /// The duration until the next job is due, measured from `now`: the
    /// 500 ms idle default on an empty scheduler, otherwise the least
    /// wait among the owned jobs' next triggers.
    pub fn time_till_next_job_at(&self, now: DateTime) -> (wait: Duration)
        ensures
            wait.millis == spec_time_till(self.spec_jobs(), now.millis),
            self.spec_jobs().len() == 0 ==> wait.millis == IDLE_POLL_MILLIS,
    {
        let now_ms = now.millis;
        let n = self.jobs.len();
        if n == 0 {
            return Duration { millis: IDLE_POLL_MILLIS };
        }
        let mut best: Option<u64> = None;
        let mut i: usize = n;
        proof {
            assert(self.spec_jobs().skip(n as int) =~= Seq::<Job<J>>::empty());
        }
        while i > 0
            invariant
                n == self.spec_jobs().len(),
                i <= n,
                match best {
                    None => spec_min_delta(self.spec_jobs().skip(i as int), now_ms) is None,
                    Some(b) => spec_min_delta(self.spec_jobs().skip(i as int), now_ms) == Some(
                        b as int,
                    ),
                },
            decreases i,
        {
            i -= 1;
            let ghost rest = self.spec_jobs().skip(i + 1);
            proof {
                assert(self.spec_jobs().skip(i as int)[0] == self.spec_jobs()[i as int]);
                assert(self.spec_jobs().skip(i as int).drop_first() =~= rest);
            }
            match next_after(self.jobs[i].cron_expr.as_str(), now_ms) {
                None => {}
                Some(e) => {
                    let delta128: i128 = e as i128 - now_ms as i128;
                    proof {
                        assert(0 < delta128 <= u64::MAX as i128);
                    }
                    let delta = delta128 as u64;
                    best = match best {
                        None => Some(delta),
                        Some(b) => if delta < b {
                            Some(delta)
                        } else {
                            Some(b)
                        },
                    };
                }
            }
        }
        proof {
            assert(self.spec_jobs().skip(0) =~= self.spec_jobs());
        }
        match best {
            None => Duration { millis: 0 },
            Some(b) => Duration { millis: b },
        }
    }

    /// The duration until the next job is due, measured from the current
    /// wall-clock instant.
    pub fn time_till_next_job(&self) -> (wait: Duration)
        ensures
            exists|now: i64| wait.millis == spec_time_till(self.spec_jobs(), now),
            self.spec_jobs().len() == 0 ==> wait.millis == IDLE_POLL_MILLIS,
    {
        let now = crate::datetime::now();
        let wait = self.time_till_next_job_at(now);
        proof {
            assert(wait.millis == spec_time_till(self.spec_jobs(), now.millis));
        }
        wait
    }
}

/// The wait across two jobs is the smaller of their single-job waits.
pub proof fn lemma_time_till_two_jobs<J>(jobs: Seq<Job<J>>, now: i64, d1: int, d2: int)
    requires
        jobs.len() == 2,
        spec_delta(jobs[0].spec_expr(), now) == Some(d1),
        spec_delta(jobs[1].spec_expr(), now) == Some(d2),
        0 <= d1 <= u64::MAX,
        0 <= d2 <= u64::MAX,
    ensures
        spec_time_till(jobs, now) == if d1 <= d2 {
            d1
        } else {
            d2
        },
{
    assert(jobs.drop_first().len() == 1);
    assert(jobs.drop_first()[0] == jobs[1]);
    assert(jobs.drop_first().drop_first().len() == 0);
    assert(spec_min_delta(jobs.drop_first().drop_first(), now) is None);
    assert(spec_min_delta(jobs.drop_first(), now) == Some(d2));
}

/// Removal efficacy, first half: when the job bearing `id` is the only
/// one that does, a successful `remove(id)` leaves no owned job bearing
/// it.
pub proof fn lemma_remove_clears_id<J>(before: Seq<Job<J>>, after: Seq<Job<J>>, id: Uuid)
    requires
        spec_find_job(before, id) != -1,
        after == before.remove(spec_find_job(before, id)),
        forall|i: int|
            0 <= i < before.len() && before[i].spec_id() == id ==> i == spec_find_job(before, id),
    ensures
        forall|i: int| 0 <= i < after.len() ==> after[i].spec_id() != id,
{
    lemma_find_job(before, id);
    let k = spec_find_job(before, id);
    assert forall|i: int| 0 <= i < after.len() implies after[i].spec_id() != id by {
        if i < k {
            assert(after[i] == before[i]);
        } else {
            assert(after[i] == before[i + 1]);
        }
    }
}

/// Removal efficacy, second half: ticking preserves identifiers
/// pointwise, so a scheduler that owns no job bearing `id` still owns
/// none after a tick — and a tick only ever invokes callbacks of owned
/// jobs.
pub proof fn lemma_tick_preserves_absence<J>(
    pre: Seq<Job<J>>,
    post: Seq<Job<J>>,
    id: Uuid,
    now: DateTime,
)
    requires
        pre.len() == post.len(),
        forall|i: int| 0 <= i < pre.len() ==> spec_ticked(pre[i], post[i], now),
        forall|i: int| 0 <= i < pre.len() ==> pre[i].spec_id() != id,
    ensures
        forall|i: int| 0 <= i < post.len() ==> post[i].spec_id() != id,
{
}

/// Watermark monotonicity: across consecutive ticks whose `now` arguments
/// do not decrease, the watermark after each tick is that tick's `now`,
/// so the watermark never moves backwards.
pub proof fn lemma_watermark_monotonic<J>(
    j0: Job<J>,
    j1: Job<J>,
    j2: Job<J>,
    n1: DateTime,
    n2: DateTime,
)
    requires
        spec_ticked(j0, j1, n1),
        spec_ticked(j1, j2, n2),
        n1.millis <= n2.millis,
    ensures
        j1.spec_last_tick() == Some(n1),
        j2.spec_last_tick() == Some(n2),
        j1.spec_last_tick()->0.millis <= j2.spec_last_tick()->0.millis,
{
}

} // verus!
