//! Dispatchers hand out jobs to workers under a budget: a number of requests
//! or a span of time. Times are nanoseconds on one monotonic clock.

use vstd::prelude::*;
use crate::limiter::Limiter;

verus! {

/// How far a run has got: `done` out of `of`, with `of > 0`.
#[derive(Clone, Copy, Debug, PartialEq, Eq, Structural)]
pub struct Progress {
    pub done: u64,
    pub of: u64,
}

impl Progress {
    /// A fraction between zero and one.
    pub open spec fn wf(self) -> bool {
        0 < self.of && self.done <= self.of
    }

    /// The fraction is one.
    pub open spec fn is_full(self) -> bool {
        self.wf() && self.done == self.of
    }

    /// The fraction one.
    pub open spec fn full() -> Progress {
        Progress { done: 1, of: 1 }
    }
}

/// The rate limiter for an optional rate: none without a rate.
pub fn new_limiter(rate: Option<u16>) -> (r: Option<Limiter>)
    requires
        rate != Some(0u16),
    ensures
        match rate {
            Some(n) => r is Some && r->0.rate() == n,
            None => r is None,
        },
{
    match rate {
        Some(n) => Some(Limiter::new(n)),
        None => None,
    }
}

/// The rate of an optional limiter.
pub open spec fn rate_of(limiter: Option<Limiter>) -> Option<u16> {
    match limiter {
        Some(l) => Some(l.rate()),
        None => None,
    }
}

/// A permit from an optional limiter: always there without one.
fn permit(limiter: &Option<Limiter>) -> (r: bool)
    ensures
        limiter is None ==> r,
{
    match limiter {
        Some(l) => l.try_acquire(),
        None => true,
    }
}

/// What a count dispatcher holds.
pub struct CountView {
    pub total: u64,
    pub applied: u64,
    pub completed: u64,
    pub canceled: bool,
    pub done: bool,
    pub rate: Option<u16>,
}

impl CountView {
    /// Completions never pass admissions, nor admissions the budget; the run
    /// is done exactly when every job of a non-empty budget has completed.
    pub open spec fn wf(self) -> bool {
        &&& self.completed <= self.applied <= self.total
        &&& self.done <==> (self.total > 0 && self.completed == self.total)
        &&& self.rate != Some(0u16)
    }

    /// Neither done nor canceled.
    pub open spec fn is_open(self) -> bool {
        !self.done && !self.canceled
    }

    /// An admission now would hand out a job.
    pub open spec fn admits(self) -> bool {
        self.is_open() && self.applied < self.total
    }

    /// The state after an admission attempt.
    pub open spec fn after_admission(self) -> CountView {
        if self.admits() {
            CountView { applied: (self.applied + 1) as u64, ..self }
        } else {
            self
        }
    }

    /// The state after one admitted job completed.
    pub open spec fn after_completion(self) -> CountView {
        let completed = (self.completed + 1) as u64;
        CountView { completed, done: self.done || completed >= self.total, ..self }
    }

    /// The state after a cancellation.
    pub open spec fn after_cancel(self) -> CountView {
        CountView { canceled: true, ..self }
    }

    /// Completed jobs out of the budget; full once done, or when the budget
    /// is empty.
    pub open spec fn progress(self) -> Progress {
        if self.done || self.total == 0 {
            Progress::full()
        } else {
            Progress { done: self.completed, of: self.total }
        }
    }
}

/// Hands out exactly `total` jobs, unless canceled first.
pub struct CountDispatcher {
    total: u64,
    applied: u64,
    completed: u64,
    is_canceled: bool,
    is_done: bool,
    limiter: Option<Limiter>,
}

impl View for CountDispatcher {
    type V = CountView;

    closed spec fn view(&self) -> CountView {
        CountView {
            total: self.total,
            applied: self.applied,
            completed: self.completed,
            canceled: self.is_canceled,
            done: self.is_done,
            rate: rate_of(self.limiter),
        }
    }
}

impl CountDispatcher {
    /// A dispatcher of `total` jobs, limited to `rate` admissions per second
    /// when a rate is given.
    pub fn new(total: u64, rate: Option<u16>) -> (r: CountDispatcher)
        requires
            rate != Some(0u16),
        ensures
            r@ == (CountView {
                total,
                applied: 0,
                completed: 0,
                canceled: false,
                done: false,
                rate,
            }),
            r@.wf(),
    {
        CountDispatcher {
            total,
            applied: 0,
            completed: 0,
            is_canceled: false,
            is_done: false,
            limiter: new_limiter(rate),
        }
    }

    /// Neither done nor canceled: a worker may go on to wait for a permit.
    pub fn is_open(&self) -> (r: bool)
        ensures
            r == self@.is_open(),
    {
        !self.is_done && !self.is_canceled
    }

    /// Tries to take a permit from the rate limiter; always succeeds without
    /// a rate.
    pub fn try_permit(&self) -> (r: bool)
        ensures
            self@.rate is None ==> r,
    {
        permit(&self.limiter)
    }

    /// Hands out a job if the dispatcher is open and the budget is not spent.
    pub fn try_apply_job(&mut self) -> (r: bool)
        requires
            old(self)@.wf(),
        ensures
            r == old(self)@.admits(),
            final(self)@ == old(self)@.after_admission(),
            final(self)@.wf(),
    {
        if self.is_done || self.is_canceled {
            return false;
        }
        if self.applied >= self.total {
            return false;
        }
        self.applied = self.applied + 1;
        true
    }

    /// Marks one admitted job as finished.
    pub fn complete_job(&mut self)
        requires
            old(self)@.wf(),
            old(self)@.completed < old(self)@.applied,
        ensures
            final(self)@ == old(self)@.after_completion(),
            final(self)@.wf(),
    {
        self.completed = self.completed + 1;
        if self.completed >= self.total && !self.is_done {
            self.is_done = true;
        }
    }

    /// Stops all further admissions.
    pub fn cancel(&mut self)
        requires
            old(self)@.wf(),
        ensures
            final(self)@ == old(self)@.after_cancel(),
            final(self)@.wf(),
    {
        if !self.is_canceled {
            self.is_canceled = true;
        }
    }

    /// Completed jobs out of the budget.
    pub fn get_process(&self) -> (r: Progress)
        requires
            self@.wf(),
        ensures
            r == self@.progress(),
            r.wf(),
    {
        if self.is_done || self.total == 0 {
            Progress { done: 1, of: 1 }
        } else {
            Progress { done: self.completed, of: self.total }
        }
    }

    /// The number of jobs handed out.
    pub fn applied(&self) -> (r: u64)
        ensures
            r == self@.applied,
    {
        self.applied
    }

    /// The number of jobs finished.
    pub fn completed(&self) -> (r: u64)
        ensures
            r == self@.completed,
    {
        self.completed
    }
}

/// What a duration dispatcher holds.
pub struct DurationView {
    pub start: u64,
    pub duration: u64,
    pub total: u64,
    pub canceled: bool,
    pub canceled_at: Option<u64>,
    pub done: bool,
    pub rate: Option<u16>,
}

impl DurationView {
    /// A cancellation time is kept exactly when canceled, and it is not
    /// before the start.
    pub open spec fn wf(self) -> bool {
        &&& self.canceled <==> self.canceled_at is Some
        &&& (self.canceled_at matches Some(t) ==> self.start <= t)
        &&& self.rate != Some(0u16)
    }

    /// The time budget is spent at `now`.
    pub open spec fn expired(self, now: u64) -> bool {
        now - self.start >= self.duration
    }

    /// Neither done nor canceled.
    pub open spec fn is_open(self) -> bool {
        !self.done && !self.canceled
    }

    /// An admission at `now` would hand out a job.
    pub open spec fn admits(self, now: u64) -> bool {
        self.is_open() && !self.expired(now)
    }

    /// The state after an admission attempt at `now`.
    pub open spec fn after_admission(self, now: u64) -> DurationView {
        if self.admits(now) {
            DurationView { total: (self.total + 1) as u64, ..self }
        } else {
            self
        }
    }

    /// The state after a job completed at `now`.
    pub open spec fn after_completion(self, now: u64) -> DurationView {
        DurationView { done: self.done || self.expired(now), ..self }
    }

    /// The state after a cancellation at `now`: the first one is recorded.
    pub open spec fn after_cancel(self, now: u64) -> DurationView {
        if self.canceled {
            self
        } else {
            DurationView { canceled: true, canceled_at: Some(now), ..self }
        }
    }

    /// Time run out of the budget, up to the cancellation if there was one,
    /// and at most the whole budget; full once done, or when the budget is
    /// empty.
    pub open spec fn progress(self, now: u64) -> Progress {
        let until = match self.canceled_at {
            Some(t) => t,
            None => now,
        };
        let ran = (until - self.start) as u64;
        if self.done || self.duration == 0 {
            Progress::full()
        } else if ran >= self.duration {
            Progress { done: self.duration, of: self.duration }
        } else {
            Progress { done: ran, of: self.duration }
        }
    }
}

/// Hands out jobs until `duration` nanoseconds have passed since `start`,
/// unless canceled first.
pub struct DurationDispatcher {
    start: u64,
    duration: u64,
    total: u64,
    is_canceled: bool,
    canceled_at: Option<u64>,
    is_done: bool,
    limiter: Option<Limiter>,
}

impl View for DurationDispatcher {
    type V = DurationView;

    closed spec fn view(&self) -> DurationView {
        DurationView {
            start: self.start,
            duration: self.duration,
            total: self.total,
            canceled: self.is_canceled,
            canceled_at: self.canceled_at,
            done: self.is_done,
            rate: rate_of(self.limiter),
        }
    }
}

impl DurationDispatcher {
    /// A dispatcher that runs for `duration` nanoseconds from `now`, limited
    /// to `rate` admissions per second when a rate is given.
    pub fn new(duration: u64, rate: Option<u16>, now: u64) -> (r: DurationDispatcher)
        requires
            rate != Some(0u16),
        ensures
            r@ == (DurationView {
                start: now,
                duration,
                total: 0,
                canceled: false,
                canceled_at: None,
                done: false,
                rate,
            }),
            r@.wf(),
    {
        DurationDispatcher {
            start: now,
            duration,
            total: 0,
            is_canceled: false,
            canceled_at: None,
            is_done: false,
            limiter: new_limiter(rate),
        }
    }

    /// Neither done nor canceled: a worker may go on to wait for a permit.
    pub fn is_open(&self) -> (r: bool)
        ensures
            r == self@.is_open(),
    {
        !self.is_done && !self.is_canceled
    }

    /// Tries to take a permit from the rate limiter; always succeeds without
    /// a rate.
    pub fn try_permit(&self) -> (r: bool)
        ensures
            self@.rate is None ==> r,
    {
        permit(&self.limiter)
    }

    /// Hands out a job if the dispatcher is open and the time budget is not
    /// spent at `now`.
    pub fn try_apply_job(&mut self, now: u64) -> (r: bool)
        requires
            old(self)@.wf(),
            old(self)@.start <= now,
            old(self)@.total < u64::MAX,
        ensures
            r == old(self)@.admits(now),
            r ==> now - old(self)@.start < old(self)@.duration,
            final(self)@ == old(self)@.after_admission(now),
            final(self)@.wf(),
    {
        if self.is_done || self.is_canceled {
            return false;
        }
        if now - self.start >= self.duration {
            return false;
        }
        self.total = self.total + 1;
        true
    }

    /// Notes that a job finished at `now`; the run is done once the time
    /// budget is spent.
    pub fn complete_job(&mut self, now: u64)
        requires
            old(self)@.wf(),
            old(self)@.start <= now,
        ensures
            final(self)@ == old(self)@.after_completion(now),
            final(self)@.wf(),
    {
        if now - self.start >= self.duration && !self.is_done {
            self.is_done = true;
        }
    }

    /// Stops all further admissions; the first call records the time.
    pub fn cancel(&mut self, now: u64)
        requires
            old(self)@.wf(),
            old(self)@.start <= now,
        ensures
            final(self)@ == old(self)@.after_cancel(now),
            final(self)@.wf(),
    {
        if !self.is_canceled {
            self.is_canceled = true;
            self.canceled_at = Some(now);
        }
    }

    /// Time run out of the budget at `now`.
    pub fn get_process(&self, now: u64) -> (r: Progress)
        requires
            self@.wf(),
            self@.start <= now,
        ensures
            r == self@.progress(now),
            r.wf(),
    {
        if self.is_done || self.duration == 0 {
            return Progress { done: 1, of: 1 };
        }
        let until = match self.canceled_at {
            Some(t) => t,
            None => now,
        };
        let ran = until - self.start;
        if ran >= self.duration {
            Progress { done: self.duration, of: self.duration }
        } else {
            Progress { done: ran, of: self.duration }
        }
    }

    /// The number of jobs handed out.
    pub fn admitted(&self) -> (r: u64)
        ensures
            r == self@.total,
    {
        self.total
    }

    /// When the run started.
    pub fn start(&self) -> (r: u64)
        ensures
            r == self@.start,
    {
        self.start
    }

    /// When the run was first canceled, if it was.
    pub fn canceled_at(&self) -> (r: Option<u64>)
        ensures
            r == self@.canceled_at,
    {
        self.canceled_at
    }
}

/// What a dispatcher of either kind holds.
pub enum DispatcherView {
    Count(CountView),
    Duration(DurationView),
}

impl DispatcherView {
    pub open spec fn wf(self) -> bool {
        match self {
            DispatcherView::Count(c) => c.wf(),
            DispatcherView::Duration(d) => d.wf(),
        }
    }

    /// `now` is a time the dispatcher can be asked about: not before its
    /// start, and with room left in its counter of admitted jobs.
    pub open spec fn accepts_time(self, now: u64) -> bool {
        match self {
            DispatcherView::Count(_) => true,
            DispatcherView::Duration(d) => d.start <= now && d.total < u64::MAX,
        }
    }

    pub open spec fn is_open(self) -> bool {
        match self {
            DispatcherView::Count(c) => c.is_open(),
            DispatcherView::Duration(d) => d.is_open(),
        }
    }

    pub open spec fn rate(self) -> Option<u16> {
        match self {
            DispatcherView::Count(c) => c.rate,
            DispatcherView::Duration(d) => d.rate,
        }
    }

    pub open spec fn admits(self, now: u64) -> bool {
        match self {
            DispatcherView::Count(c) => c.admits(),
            DispatcherView::Duration(d) => d.admits(now),
        }
    }

    pub open spec fn after_admission(self, now: u64) -> DispatcherView {
        match self {
            DispatcherView::Count(c) => DispatcherView::Count(c.after_admission()),
            DispatcherView::Duration(d) => DispatcherView::Duration(d.after_admission(now)),
        }
    }

    /// A job may complete: for a count dispatcher, one is still running.
    pub open spec fn has_running_job(self) -> bool {
        match self {
            DispatcherView::Count(c) => c.completed < c.applied,
            DispatcherView::Duration(_) => true,
        }
    }

    pub open spec fn after_completion(self, now: u64) -> DispatcherView {
        match self {
            DispatcherView::Count(c) => DispatcherView::Count(c.after_completion()),
            DispatcherView::Duration(d) => DispatcherView::Duration(d.after_completion(now)),
        }
    }

    pub open spec fn after_cancel(self, now: u64) -> DispatcherView {
        match self {
            DispatcherView::Count(c) => DispatcherView::Count(c.after_cancel()),
            DispatcherView::Duration(d) => DispatcherView::Duration(d.after_cancel(now)),
        }
    }

    pub open spec fn progress(self, now: u64) -> Progress {
        match self {
            DispatcherView::Count(c) => c.progress(),
            DispatcherView::Duration(d) => d.progress(now),
        }
    }
}

/// A dispatcher under a count budget or a time budget.
pub enum Dispatcher {
    Count(CountDispatcher),
    Duration(DurationDispatcher),
}

impl View for Dispatcher {
    type V = DispatcherView;

    open spec fn view(&self) -> DispatcherView {
        match self {
            Dispatcher::Count(c) => DispatcherView::Count(c@),
            Dispatcher::Duration(d) => DispatcherView::Duration(d@),
        }
    }
}

impl Dispatcher {
    /// Neither done nor canceled: a worker may go on to wait for a permit.
    pub fn is_open(&self) -> (r: bool)
        ensures
            r == self@.is_open(),
    {
        match self {
            Dispatcher::Count(c) => c.is_open(),
            Dispatcher::Duration(d) => d.is_open(),
        }
    }

    /// Tries to take a permit from the rate limiter; always succeeds without
    /// a rate.
    pub fn try_permit(&self) -> (r: bool)
        ensures
            self@.rate() is None ==> r,
    {
        match self {
            Dispatcher::Count(c) => c.try_permit(),
            Dispatcher::Duration(d) => d.try_permit(),
        }
    }

    /// Hands out a job at `now` if the budget allows it.
    pub fn try_apply_job(&mut self, now: u64) -> (r: bool)
        requires
            old(self)@.wf(),
            old(self)@.accepts_time(now),
        ensures
            r == old(self)@.admits(now),
            final(self)@ == old(self)@.after_admission(now),
            final(self)@.wf(),
    {
        match self {
            Dispatcher::Count(c) => c.try_apply_job(),
            Dispatcher::Duration(d) => d.try_apply_job(now),
        }
    }

    /// Notes that an admitted job finished at `now`.
    pub fn complete_job(&mut self, now: u64)
        requires
            old(self)@.wf(),
            old(self)@.accepts_time(now),
            old(self)@.has_running_job(),
        ensures
            final(self)@ == old(self)@.after_completion(now),
            final(self)@.wf(),
    {
        match self {
            Dispatcher::Count(c) => c.complete_job(),
            Dispatcher::Duration(d) => d.complete_job(now),
        }
    }

    /// Stops all further admissions.
    pub fn cancel(&mut self, now: u64)
        requires
            old(self)@.wf(),
            old(self)@.accepts_time(now),
        ensures
            final(self)@ == old(self)@.after_cancel(now),
            final(self)@.wf(),
    {
        match self {
            Dispatcher::Count(c) => c.cancel(),
            Dispatcher::Duration(d) => d.cancel(now),
        }
    }

    /// How far the run has got at `now`.
    pub fn get_process(&self, now: u64) -> (r: Progress)
        requires
            self@.wf(),
            self@.accepts_time(now),
        ensures
            r == self@.progress(now),
            r.wf(),
    {
        match self {
            Dispatcher::Count(c) => c.get_process(),
            Dispatcher::Duration(d) => d.get_process(now),
        }
    }

    /// Whether a call at `now` meets the dispatcher's demands on time.
    pub fn accepts_time(&self, now: u64) -> (r: bool)
        ensures
            r == self@.accepts_time(now),
    {
        match self {
            Dispatcher::Count(_) => true,
            Dispatcher::Duration(d) => d.start() <= now && d.admitted() < u64::MAX,
        }
    }

    /// Whether a job is running that may complete.
    pub fn has_running_job(&self) -> (r: bool)
        requires
            self@.wf(),
        ensures
            r == self@.has_running_job(),
    {
        match self {
            Dispatcher::Count(c) => c.completed() < c.applied(),
            Dispatcher::Duration(_) => true,
        }
    }
}

/// One call on a count dispatcher, by any worker.
pub enum CountStep {
    Admit,
    Complete,
    Cancel,
}

/// The state after one call; a completion with no running job is no call a
/// worker makes, and changes nothing.
pub open spec fn count_step(v: CountView, e: CountStep) -> CountView {
    match e {
        CountStep::Admit => v.after_admission(),
        CountStep::Complete => if v.completed < v.applied {
            v.after_completion()
        } else {
            v
        },
        CountStep::Cancel => v.after_cancel(),
    }
}

/// The state after the calls of `steps`, in order, from `v`.
pub open spec fn count_run(v: CountView, steps: Seq<CountStep>) -> CountView
    decreases steps.len(),
{
    if steps.len() == 0 {
        v
    } else {
        count_step(count_run(v, steps.drop_last()), steps.last())
    }
}

/// How many admission calls of `steps` handed out a job.
pub open spec fn count_granted(v: CountView, steps: Seq<CountStep>) -> nat
    decreases steps.len(),
{
    if steps.len() == 0 {
        0
    } else {
        let before = count_run(v, steps.drop_last());
        count_granted(v, steps.drop_last()) + if steps.last() is Admit && before.admits() {
            1nat
        } else {
            0nat
        }
    }
}

/// A count dispatcher that turns an admission down, and was not canceled,
/// has handed out its whole budget.
pub proof fn lemma_refusal_means_budget_spent(v: CountView)
    requires
        v.wf(),
        !v.canceled,
        !v.admits(),
    ensures
        v.applied == v.total,
{
}

/// However the calls of any number of workers interleave, a fresh count
/// dispatcher of budget N hands out at most N jobs, and the jobs handed out
/// are those it counts as applied; once it turns a worker away without
/// having been canceled, it has handed out exactly N.
pub proof fn lemma_count_admissions_exact(v: CountView, steps: Seq<CountStep>)
    requires
        v.wf(),
        v.applied == 0,
    ensures
        count_run(v, steps).wf(),
        count_run(v, steps).total == v.total,
        count_granted(v, steps) == count_run(v, steps).applied,
        count_granted(v, steps) <= v.total,
        !count_run(v, steps).canceled && !count_run(v, steps).admits() ==> count_granted(v, steps)
            == v.total,
    decreases steps.len(),
{
    if steps.len() > 0 {
        lemma_count_admissions_exact(v, steps.drop_last());
    }
    let w = count_run(v, steps);
    if !w.canceled && !w.admits() {
        lemma_refusal_means_budget_spent(w);
    }
}

/// A count dispatcher with a budget of one job hands out at most one, however
/// many workers ask; once it turns one away without having been canceled, it
/// has handed out exactly one.
pub proof fn lemma_single_job_budget(v: CountView, steps: Seq<CountStep>)
    requires
        v.wf(),
        v.applied == 0,
        v.total == 1,
    ensures
        count_granted(v, steps) <= 1,
        !count_run(v, steps).canceled && !count_run(v, steps).admits() ==> count_granted(v, steps)
            == 1,
{
    lemma_count_admissions_exact(v, steps);
}

/// The state after `k` completions.
pub open spec fn count_completions(v: CountView, k: nat) -> CountView
    decreases k,
{
    if k == 0 {
        v
    } else {
        count_completions(v, (k - 1) as nat).after_completion()
    }
}

/// `k` completions of running jobs keep the dispatcher well formed and add
/// `k` to its completed jobs.
pub proof fn lemma_count_completions(v: CountView, k: nat)
    requires
        v.wf(),
        v.completed + k <= v.applied,
    ensures
        count_completions(v, k).wf(),
        count_completions(v, k).completed == v.completed + k,
        count_completions(v, k).applied == v.applied,
        count_completions(v, k).total == v.total,
    decreases k,
{
    if k > 0 {
        lemma_count_completions(v, (k - 1) as nat);
    }
}

/// Once a count dispatcher has handed out its whole budget, completing every
/// job it handed out brings its progress to one.
pub proof fn lemma_completing_all_admitted(v: CountView)
    requires
        v.wf(),
        v.applied == v.total,
    ensures
        count_completions(v, (v.applied - v.completed) as nat).progress().is_full(),
{
    lemma_count_completions(v, (v.applied - v.completed) as nat);
}

/// Cancelling again changes nothing: the first cancellation time stays.
pub proof fn lemma_cancel_idempotent(v: DurationView, first: u64, later: u64)
    ensures
        v.after_cancel(first).after_cancel(later) == v.after_cancel(first),
        v.after_cancel(first).canceled_at == (if v.canceled {
            v.canceled_at
        } else {
            Some(first)
        }),
{
}

/// Cancelling a count dispatcher again changes nothing.
pub proof fn lemma_count_cancel_idempotent(v: CountView)
    ensures
        v.after_cancel().after_cancel() == v.after_cancel(),
{
}

/// A duration dispatcher with no time budget admits no job at any time.
pub proof fn lemma_zero_duration_admits_nothing(v: DurationView, now: u64)
    requires
        v.start <= now,
        v.duration == 0,
    ensures
        !v.admits(now),
{
}

/// Every job a duration dispatcher hands out is handed out before its time
/// budget is spent.
pub proof fn lemma_admitted_within_budget(v: DurationView, now: u64)
    requires
        v.start <= now,
        v.admits(now),
    ensures
        now - v.start < v.duration,
{
}

} // verus!
