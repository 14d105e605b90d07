//! The aggregator: folds the outcome of each request into counters, an error
//! breakdown and latency samples, snapshots per-window throughput, and
//! computes the summary once the run is over. Times are nanoseconds on one
//! monotonic clock.

use vstd::prelude::*;
use crate::latency::{
    is_sorted, latencies_of, lemma_latencies_ordered_and_bounded, lemma_sorted_max_is_last,
    percentiles_ascend, max_of, mean_nanos, max_nanos, mean_of, percentile_latencies,
    sort_ascending, stdev_nanos, stdev_of, trim_samples, trimmed,
};
use crate::status::{class_of, StatusClass, StatusCounts};

verus! {

/// A request that failed in transport or with an error response: a stable
/// description of the error, and the status code when one came with it.
pub struct TransportError {
    pub kind: String,
    pub status: Option<u16>,
}

/// What happened to one request: when it was sent, when its outcome arrived,
/// and the status code of its response or the error it met.
pub struct Message {
    pub req_at: u64,
    pub rsp_at: u64,
    pub result: Result<u16, TransportError>,
}

impl Message {
    /// A message for a request sent at `req_at` whose outcome arrived at
    /// `rsp_at`.
    pub fn new(result: Result<u16, TransportError>, req_at: u64, rsp_at: u64) -> (r: Message)
        requires
            req_at <= rsp_at,
        ensures
            r == (Message { req_at, rsp_at, result }),
    {
        Message { req_at, rsp_at, result }
    }
}

/// The sum of the counts of an error breakdown.
pub open spec fn error_total(s: Seq<(String, u64)>) -> int
    decreases s.len(),
{
    if s.len() == 0 {
        0
    } else {
        error_total(s.drop_last()) + s.last().1
    }
}

/// No two entries of an error breakdown describe the same error.
pub open spec fn keys_unique(s: Seq<(String, u64)>) -> bool {
    forall|i: int, j: int| 0 <= i < s.len() && 0 <= j < s.len() && i != j ==> s[i].0@ != s[j].0@
}

/// The error breakdown after one more error described by `kind`: its count
/// goes up by one, or it enters with a count of one.
pub open spec fn errors_after(s: Seq<(String, u64)>, kind: String) -> Seq<(String, u64)> {
    if exists|i: int| 0 <= i < s.len() && s[i].0@ == kind@ {
        let i = choose|i: int| 0 <= i < s.len() && s[i].0@ == kind@;
        s.update(i, (s[i].0, (s[i].1 + 1) as u64))
    } else {
        s.push((kind, 1))
    }
}

proof fn lemma_error_total_update(s: Seq<(String, u64)>, i: int, e: (String, u64))
    requires
        0 <= i < s.len(),
    ensures
        error_total(s.update(i, e)) == error_total(s) - s[i].1 + e.1,
    decreases s.len(),
{
    let u = s.update(i, e);
    if i < s.len() - 1 {
        assert(u.drop_last() =~= s.drop_last().update(i, e));
        lemma_error_total_update(s.drop_last(), i, e);
    } else {
        assert(u.drop_last() =~= s.drop_last());
    }
}

proof fn lemma_error_total_push(s: Seq<(String, u64)>, e: (String, u64))
    ensures
        error_total(s.push(e)) == error_total(s) + e.1,
{
    assert(s.push(e).drop_last() =~= s);
}

proof fn lemma_error_count_bounded(s: Seq<(String, u64)>, i: int)
    requires
        0 <= i < s.len(),
    ensures
        s[i].1 <= error_total(s),
        0 <= error_total(s),
    decreases s.len(),
{
    lemma_error_total_nonneg(s.drop_last());
    if i < s.len() - 1 {
        lemma_error_count_bounded(s.drop_last(), i);
        assert(s[i] == s.drop_last()[i]);
    }
}

proof fn lemma_error_total_nonneg(s: Seq<(String, u64)>)
    ensures
        0 <= error_total(s),
    decreases s.len(),
{
    if s.len() > 0 {
        lemma_error_total_nonneg(s.drop_last());
    }
}

/// One more error adds one to the total of the breakdown and keeps its
/// descriptions distinct.
pub proof fn lemma_errors_after(s: Seq<(String, u64)>, kind: String)
    requires
        keys_unique(s),
        error_total(s) < u64::MAX,
    ensures
        error_total(errors_after(s, kind)) == error_total(s) + 1,
        keys_unique(errors_after(s, kind)),
{
    lemma_error_total_nonneg(s);
    if exists|i: int| 0 <= i < s.len() && s[i].0@ == kind@ {
        let i = choose|i: int| 0 <= i < s.len() && s[i].0@ == kind@;
        lemma_error_count_bounded(s, i);
        lemma_error_total_update(s, i, (s[i].0, (s[i].1 + 1) as u64));
    } else {
        lemma_error_total_push(s, (kind, 1));
    }
}

/// What the aggregator holds.
pub struct StatsView {
    pub status: StatusCounts,
    pub errors: Seq<(String, u64)>,
    pub total: u64,
    pub total_success: u64,
    pub started_at: u64,
    pub stopped_at: Option<u64>,
    pub stopped: bool,
    pub current_cumulative: u64,
    pub req_per_second: Seq<u64>,
    pub elapsed: Seq<u64>,
    pub max_req_per_second: u64,
    pub avg_req_elapsed: u64,
    pub max_req_elapsed: u64,
    pub stdev_req_elapsed: u64,
    pub latencies: Seq<(u32, u64)>,
}

impl StatsView {
    /// Every outcome is a success or a counted error; status codes are
    /// counted at most once per outcome; the current window counts successes
    /// only; the stop time, once set, is not before the start.
    pub open spec fn wf(self) -> bool {
        &&& self.total == self.total_success + error_total(self.errors)
        &&& self.status.sum() <= self.total
        &&& keys_unique(self.errors)
        &&& self.current_cumulative <= self.total_success
        &&& self.stopped <==> self.stopped_at is Some
        &&& (self.stopped_at matches Some(t) ==> self.started_at <= t)
    }

    /// Still taking outcomes: well formed, one latency sample per success,
    /// and no summary computed yet.
    pub open spec fn collecting(self) -> bool {
        &&& self.wf()
        &&& self.elapsed.len() == self.total_success
        &&& self.max_req_per_second == 0
        &&& self.avg_req_elapsed == 0
        &&& self.max_req_elapsed == 0
        &&& self.stdev_req_elapsed == 0
        &&& self.latencies.len() == 0
    }

    /// The state after folding one outcome.
    pub open spec fn after_message(self, m: Message) -> StatsView {
        match m.result {
            Ok(code) => StatsView {
                status: self.status.with_recorded(code),
                total: (self.total + 1) as u64,
                total_success: (self.total_success + 1) as u64,
                current_cumulative: (self.current_cumulative + 1) as u64,
                elapsed: self.elapsed.push((m.rsp_at - m.req_at) as u64),
                ..self
            },
            Err(e) => StatsView {
                status: match e.status {
                    Some(code) => self.status.with_recorded(code),
                    None => self.status,
                },
                errors: errors_after(self.errors, e.kind),
                total: (self.total + 1) as u64,
                ..self
            },
        }
    }

    /// The state after the summary, with the latency samples in ascending
    /// order `t`.
    pub open spec fn summarized(self, t: Seq<u64>, percentiles: Seq<u32>) -> StatsView {
        StatsView {
            max_req_per_second: max_of(self.req_per_second),
            avg_req_elapsed: mean_of(t) as u64,
            max_req_elapsed: max_of(t),
            stdev_req_elapsed: stdev_of(t),
            latencies: latencies_of(t, percentiles),
            elapsed: Seq::empty(),
            ..self
        }
    }
}

/// Folding an outcome keeps the aggregator collecting and counts it once.
pub proof fn lemma_after_message(v: StatsView, m: Message)
    requires
        v.collecting(),
        v.total < u64::MAX,
    ensures
        v.after_message(m).collecting(),
        v.after_message(m).total == v.total + 1,
{
    lemma_error_total_nonneg(v.errors);
    match m.result {
        Ok(code) => {},
        Err(e) => {
            lemma_errors_after(v.errors, e.kind);
        },
    }
}

/// Every folded outcome moves exactly one status range counter by one when
/// it succeeded; when it failed, it moves the counter of the attached status
/// if there is one, and none otherwise.
pub proof fn lemma_message_status_partition(v: StatsView, m: Message)
    requires
        v.collecting(),
        v.total < u64::MAX,
    ensures
        ({
            let w = v.after_message(m);
            match m.result {
                Ok(code) => {
                    &&& w.status.get(class_of(code)) == v.status.get(class_of(code)) + 1
                    &&& forall|c: StatusClass|
                        c != class_of(code) ==> #[trigger] w.status.get(c) == v.status.get(c)
                },
                Err(e) => match e.status {
                    Some(code) => {
                        &&& w.status.get(class_of(code)) == v.status.get(class_of(code)) + 1
                        &&& forall|c: StatusClass|
                            c != class_of(code) ==> #[trigger] w.status.get(c) == v.status.get(c)
                    },
                    None => w.status == v.status,
                },
            }
        }),
{
}

/// The state after folding the outcomes of `ms` in order.
pub open spec fn fold_messages(v: StatsView, ms: Seq<Message>) -> StatsView
    decreases ms.len(),
{
    if ms.len() == 0 {
        v
    } else {
        fold_messages(v, ms.drop_last()).after_message(ms.last())
    }
}

/// However many outcomes are folded, every one is counted once, as a success
/// or as an error: the total is the successes plus the sum of the error
/// breakdown, and there is one latency sample per success.
pub proof fn lemma_fold_balances(v: StatsView, ms: Seq<Message>)
    requires
        v.collecting(),
        v.total + ms.len() <= u64::MAX,
    ensures
        fold_messages(v, ms).collecting(),
        fold_messages(v, ms).total == v.total + ms.len(),
        fold_messages(v, ms).total == fold_messages(v, ms).total_success + error_total(
            fold_messages(v, ms).errors,
        ),
        fold_messages(v, ms).elapsed.len() == fold_messages(v, ms).total_success,
    decreases ms.len(),
{
    if ms.len() > 0 {
        lemma_fold_balances(v, ms.drop_last());
        lemma_after_message(fold_messages(v, ms.drop_last()), ms.last());
    }
}

/// After the summary, with the percentiles requested in ascending order, the
/// latencies are in ascending order of percentile and none exceeds the largest
/// latency.
pub proof fn lemma_summary_latencies(v: StatsView, t: Seq<u64>, percentiles: Seq<u32>)
    requires
        percentiles_ascend(percentiles),
    ensures
        ({
            let w = v.summarized(t, percentiles);
            &&& forall|i: int, j: int|
                0 <= i <= j < w.latencies.len() ==> w.latencies[i].0 <= w.latencies[j].0
            &&& forall|i: int|
                0 <= i < w.latencies.len() ==> #[trigger] w.latencies[i].1 <= w.max_req_elapsed
        }),
{
    lemma_latencies_ordered_and_bounded(t, percentiles);
}

/// Adds one error described by `kind` to the breakdown.
fn record_error(errors: &mut Vec<(String, u64)>, kind: String)
    requires
        keys_unique(old(errors)@),
        error_total(old(errors)@) < u64::MAX,
    ensures
        final(errors)@ == errors_after(old(errors)@, kind),
{
    let mut i: usize = 0;
    while i < errors.len()
        invariant
            i <= errors.len(),
            errors@ == old(errors)@,
            keys_unique(old(errors)@),
            error_total(old(errors)@) < u64::MAX,
            forall|j: int| 0 <= j < i ==> errors@[j].0@ != kind@,
        decreases errors.len() - i,
    {
        if errors[i].0 == kind {
            proof {
                lemma_error_count_bounded(errors@, i as int);
                let s = old(errors)@;
                assert(exists|j: int| 0 <= j < s.len() && s[j].0@ == kind@);
                let c = choose|j: int| 0 <= j < s.len() && s[j].0@ == kind@;
                assert(s[c].0@ == s[i as int].0@);
                assert(c == i as int);
            }
            let key = errors[i].0.clone();
            let count = errors[i].1 + 1;
            errors.set(i, (key, count));
            return;
        }
        i = i + 1;
    }
    errors.push((kind, 1));
}

/// The aggregator of one run.
pub struct Statistics {
    status: StatusCounts,
    errors: Vec<(String, u64)>,
    total: u64,
    total_success: u64,
    started_at: u64,
    stopped_at: Option<u64>,
    is_stopped: bool,
    current_cumulative: u64,
    req_per_second: Vec<u64>,
    elapsed_time: Vec<u64>,
    max_req_per_second: u64,
    avg_req_elapsed_time: u64,
    max_req_elapsed_time: u64,
    stdev_req_elapsed_time: u64,
    latencies: Vec<(u32, u64)>,
}

impl View for Statistics {
    type V = StatsView;

    closed spec fn view(&self) -> StatsView {
        StatsView {
            status: self.status,
            errors: self.errors@,
            total: self.total,
            total_success: self.total_success,
            started_at: self.started_at,
            stopped_at: self.stopped_at,
            stopped: self.is_stopped,
            current_cumulative: self.current_cumulative,
            req_per_second: self.req_per_second@,
            elapsed: self.elapsed_time@,
            max_req_per_second: self.max_req_per_second,
            avg_req_elapsed: self.avg_req_elapsed_time,
            max_req_elapsed: self.max_req_elapsed_time,
            stdev_req_elapsed: self.stdev_req_elapsed_time,
            latencies: self.latencies@,
        }
    }
}

impl Statistics {
    /// Empty statistics of a run that starts at `now`.
    pub fn new(now: u64) -> (r: Statistics)
        ensures
            r@.collecting(),
            r@.total == 0,
            r@.total_success == 0,
            r@.errors.len() == 0,
            r@.status.sum() == 0,
            r@.started_at == now,
            r@.stopped_at is None,
            r@.current_cumulative == 0,
            r@.req_per_second.len() == 0,
    {
        Statistics {
            status: StatusCounts::new(),
            errors: Vec::new(),
            total: 0,
            total_success: 0,
            started_at: now,
            stopped_at: None,
            is_stopped: false,
            current_cumulative: 0,
            req_per_second: Vec::new(),
            elapsed_time: Vec::new(),
            max_req_per_second: 0,
            avg_req_elapsed_time: 0,
            max_req_elapsed_time: 0,
            stdev_req_elapsed_time: 0,
            latencies: Vec::new(),
        }
    }

    /// The number of outcomes folded so far.
    pub fn get_total(&self) -> (r: u64)
        ensures
            r == self@.total,
    {
        self.total
    }

    /// Restarts the clock of the run at `now`, when the preparation before
    /// the run is over.
    pub fn reset_start_time(&mut self, now: u64)
        requires
            old(self)@.wf(),
            old(self)@.stopped_at matches Some(t) ==> now <= t,
        ensures
            final(self)@ == (StatsView { started_at: now, ..old(self)@ }),
            final(self)@.wf(),
    {
        self.started_at = now;
    }

    /// Folds the outcome of one request.
    pub fn handle_message(&mut self, message: Message)
        requires
            old(self)@.collecting(),
            old(self)@.total < u64::MAX,
            message.req_at <= message.rsp_at,
        ensures
            final(self)@ == old(self)@.after_message(message),
            final(self)@.collecting(),
    {
        proof {
            lemma_after_message(self@, message);
            lemma_error_total_nonneg(self@.errors);
        }
        let Message { req_at, rsp_at, result } = message;
        self.total = self.total + 1;
        match result {
            Ok(code) => {
                self.status.record(code);
                self.total_success = self.total_success + 1;
                self.current_cumulative = self.current_cumulative + 1;
                self.elapsed_time.push(rsp_at - req_at);
            },
            Err(e) => {
                let TransportError { kind, status } = e;
                record_error(&mut self.errors, kind);
                match status {
                    Some(code) => self.status.record(code),
                    None => {},
                }
            },
        }
    }

    /// Closes the current window: its count of successes joins the
    /// per-window series and the count starts again from zero. Returns
    /// whether the sampler goes on, which it does until the run is stopped.
    pub fn take_sample(&mut self) -> (keep_going: bool)
        requires
            old(self)@.wf(),
        ensures
            keep_going == !old(self)@.stopped,
            final(self)@ == (StatsView {
                req_per_second: old(self)@.req_per_second.push(old(self)@.current_cumulative),
                current_cumulative: 0,
                ..old(self)@
            }),
            final(self)@.wf(),
    {
        self.req_per_second.push(self.current_cumulative);
        self.current_cumulative = 0;
        !self.is_stopped
    }

    /// Marks the run as stopped at `now`.
    pub fn stop_timer(&mut self, now: u64)
        requires
            old(self)@.wf(),
            old(self)@.started_at <= now,
        ensures
            final(self)@ == (StatsView { stopped: true, stopped_at: Some(now), ..old(self)@ }),
            final(self)@.wf(),
    {
        self.is_stopped = true;
        self.stopped_at = Some(now);
    }

    /// The length of the run, once stopped.
    pub fn run_nanos(&self) -> (r: Option<u64>)
        requires
            self@.wf(),
        ensures
            match self@.stopped_at {
                Some(t) => r == Some((t - self@.started_at) as u64),
                None => r is None,
            },
    {
        match self.stopped_at {
            Some(t) => Some(t - self.started_at),
            None => None,
        }
    }

    /// Computes the summary once the run is over: the largest window count,
    /// and over the latency samples in ascending order their mean, maximum,
    /// standard deviation and the prefix mean of each percentile (parts per
    /// million); the samples are then released.
    pub fn summary(&mut self, percentiles: &Vec<u32>)
        requires
            old(self)@.collecting(),
        ensures
            final(self)@.wf(),
            exists|t: Seq<u64>|
                {
                    &&& is_sorted(t)
                    &&& t.to_multiset() == old(self)@.elapsed.to_multiset()
                    &&& final(self)@ == old(self)@.summarized(t, percentiles@)
                    &&& t.len() > 0 ==> final(self)@.max_req_elapsed == t.last()
                },
            old(self)@.elapsed.len() == 0 ==> {
                &&& final(self)@.avg_req_elapsed == 0
                &&& final(self)@.max_req_elapsed == 0
                &&& final(self)@.stdev_req_elapsed == 0
                &&& final(self)@.latencies.len() == 0
            },
    {
        self.max_req_per_second = max_nanos(&self.req_per_second);
        sort_ascending(&mut self.elapsed_time);
        let ghost t = self.elapsed_time@;
        proof {
            if old(self)@.elapsed.len() == 0 {
                vstd::seq_lib::to_multiset_len(t);
                vstd::seq_lib::to_multiset_len(old(self)@.elapsed);
            }
        }
        self.avg_req_elapsed_time = mean_nanos(&self.elapsed_time);
        self.max_req_elapsed_time = max_nanos(&self.elapsed_time);
        self.stdev_req_elapsed_time = stdev_nanos(&self.elapsed_time);
        self.latencies = percentile_latencies(&self.elapsed_time, percentiles);
        self.elapsed_time = Vec::new();
        proof {
            if t.len() > 0 {
                lemma_sorted_max_is_last(t);
            }
        }
        assert(self@ == old(self)@.summarized(t, percentiles@));
    }

    /// The per-window series without its warm-up and partial windows.
    pub fn trimmed_per_second(&self) -> (r: Vec<u64>)
        ensures
            r@ == trimmed(self@.req_per_second),
    {
        trim_samples(&self.req_per_second)
    }

    /// The number of successful outcomes.
    pub fn total_success(&self) -> (r: u64)
        ensures
            r == self@.total_success,
    {
        self.total_success
    }

    /// The counter of one status range.
    pub fn status_count(&self, c: StatusClass) -> (r: u64)
        ensures
            r == self@.status.get(c),
    {
        self.status.count(c)
    }

    /// The error breakdown: each error description with its count.
    pub fn errors(&self) -> (r: &Vec<(String, u64)>)
        ensures
            r@ == self@.errors,
    {
        &self.errors
    }

    /// The latency samples not yet summarized.
    pub fn elapsed_time(&self) -> (r: &Vec<u64>)
        ensures
            r@ == self@.elapsed,
    {
        &self.elapsed_time
    }

    /// The per-window series of success counts.
    pub fn req_per_second(&self) -> (r: &Vec<u64>)
        ensures
            r@ == self@.req_per_second,
    {
        &self.req_per_second
    }

    /// The successes counted in the current window.
    pub fn current_cumulative(&self) -> (r: u64)
        ensures
            r == self@.current_cumulative,
    {
        self.current_cumulative
    }

    /// The largest window count.
    pub fn max_req_per_second(&self) -> (r: u64)
        ensures
            r == self@.max_req_per_second,
    {
        self.max_req_per_second
    }

    /// The mean latency.
    pub fn avg_req_elapsed_time(&self) -> (r: u64)
        ensures
            r == self@.avg_req_elapsed,
    {
        self.avg_req_elapsed_time
    }

    /// The largest latency.
    pub fn max_req_elapsed_time(&self) -> (r: u64)
        ensures
            r == self@.max_req_elapsed,
    {
        self.max_req_elapsed_time
    }

    /// The standard deviation of the latencies.
    pub fn stdev_req_elapsed_time(&self) -> (r: u64)
        ensures
            r == self@.stdev_req_elapsed,
    {
        self.stdev_req_elapsed_time
    }

    /// The prefix-mean latency of each percentile.
    pub fn latencies(&self) -> (r: &Vec<(u32, u64)>)
        ensures
            r@ == self@.latencies,
    {
        &self.latencies
    }

    /// When the run started.
    pub fn started_at(&self) -> (r: u64)
        ensures
            r == self@.started_at,
    {
        self.started_at
    }

    /// When the run stopped, if it has.
    pub fn stopped_at(&self) -> (r: Option<u64>)
        ensures
            r == self@.stopped_at,
    {
        self.stopped_at
    }
}

} // verus!
