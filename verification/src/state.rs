//! The run's shared tally: outcome classification, the aggregate counters,
//! the kill switch, and report rendering.

use vstd::prelude::*;
use vstd::string::StringExecFns;

use crate::errors::ClientError;
use crate::strings::{dec_rep, u64_to_string};
use crate::sys::now_millis;

verus! {

/// The classified result of one executed job.
#[derive(Debug, Clone)]
pub enum Outcome {
    Success(u16),
    Failure(u16),
    Error(String),
}

/// How a status code is classified: success exactly when it lies in the
/// 2xx range, every other code is a failure.
pub open spec fn classified(status: u16) -> Outcome {
    if 200 <= status < 300 {
        Outcome::Success(status)
    } else {
        Outcome::Failure(status)
    }
}

pub fn classify_status(status: u16) -> (o: Outcome)
    ensures
        o == classified(status),
{
    if 200 <= status && status < 300 {
        Outcome::Success(status)
    } else {
        Outcome::Failure(status)
    }
}

/// Classifies a finished HTTP call: a status code by its range, a transport
/// or construction failure as an error carrying its message.
pub fn classify(result: Result<u16, ClientError>) -> (o: Outcome)
    ensures
        match result {
            Ok(status) => o == classified(status),
            Err(e) => o matches Outcome::Error(m) && m@ == e.message_view(),
        },
{
    match result {
        Ok(status) => classify_status(status),
        Err(ClientError::ConfigError(m)) => Outcome::Error(m),
        Err(ClientError::HTTPError(m)) => Outcome::Error(m),
        Err(ClientError::HeaderError(m)) => Outcome::Error(m),
    }
}

impl Outcome {
    /// The (success, fail, error) contribution of this outcome: exactly one
    /// of the three is one, the others zero.
    pub open spec fn counts_spec(self) -> (int, int, int) {
        match self {
            Outcome::Success(_) => (1, 0, 0),
            Outcome::Failure(_) => (0, 1, 0),
            Outcome::Error(_) => (0, 0, 1),
        }
    }

    pub fn counts(&self) -> (r: (usize, usize, usize))
        ensures
            (r.0 as int, r.1 as int, r.2 as int) == self.counts_spec(),
            r.0 + r.1 + r.2 == 1,
    {
        match self {
            Outcome::Success(_) => (1, 0, 0),
            Outcome::Failure(_) => (0, 1, 0),
            Outcome::Error(_) => (0, 0, 1),
        }
    }
}

/// The aggregate state of one run: how many jobs were requested, how many
/// resolved so far and how, and whether the run was killed early.
pub struct State {
    pub start: u64,
    pub requested: usize,
    pub processed: usize,
    pub success: usize,
    pub fail: usize,
    pub error: usize,
    pub killed: bool,
}

impl State {
    /// The run invariant: the per-kind counters account for every processed
    /// job, and no more jobs resolve than were requested.
    pub open spec fn wf(self) -> bool {
        &&& self.success + self.fail + self.error == self.processed
        &&& self.processed <= self.requested
    }

    /// A fresh state: all counters at zero, not killed.
    pub open spec fn initial_spec(requested: usize, start: u64) -> State {
        State { start, requested, processed: 0, success: 0, fail: 0, error: 0, killed: false }
    }

    pub open spec fn done_spec(self) -> bool {
        self.killed || self.requested == self.processed
    }

    pub open spec fn kill_spec(self) -> State {
        State { killed: true, ..self }
    }

    /// The state after one outcome is recorded: processed goes up by one,
    /// and exactly one per-kind counter goes up with it.
    pub open spec fn record_spec(self, outcome: Outcome) -> State {
        State {
            processed: (self.processed + 1) as usize,
            success: (self.success + outcome.counts_spec().0) as usize,
            fail: (self.fail + outcome.counts_spec().1) as usize,
            error: (self.error + outcome.counts_spec().2) as usize,
            ..self
        }
    }

    pub fn new(r: usize) -> (s: State)
        ensures
            s == State::initial_spec(r, s.start),
            s.wf(),
    {
        State {
            start: now_millis(),
            requested: r,
            processed: 0,
            success: 0,
            fail: 0,
            error: 0,
            killed: false,
        }
    }

    /// Counts one resolved job. The caller says which single kind it was.
    pub fn increment(&mut self, success: usize, fail: usize, error: usize)
        requires
            old(self).wf(),
            old(self).processed < old(self).requested,
            success + fail + error == 1,
        ensures
            final(self).processed == old(self).processed + 1,
            final(self).success == old(self).success + success,
            final(self).fail == old(self).fail + fail,
            final(self).error == old(self).error + error,
            final(self).requested == old(self).requested,
            final(self).killed == old(self).killed,
            final(self).start == old(self).start,
            final(self).wf(),
    {
        self.processed = self.processed + 1;
        self.success = self.success + success;
        self.fail = self.fail + fail;
        self.error = self.error + error;
    }

    /// Counts one classified outcome.
    pub fn record(&mut self, outcome: &Outcome)
        requires
            old(self).wf(),
            old(self).processed < old(self).requested,
        ensures
            *final(self) == old(self).record_spec(*outcome),
            final(self).wf(),
    {
        let (s, f, e) = outcome.counts();
        self.increment(s, f, e);
    }

    /// One step of the run's bookkeeping loop: an interrupt message flips
    /// the kill switch first, and then the outcome is counted — but only
    /// while the run is below its target, so nothing is ever counted twice.
    pub fn handle_message(&mut self, outcome: &Outcome, kill: bool)
        requires
            old(self).wf(),
        ensures
            final(self).wf(),
            ({
                let k = if kill {
                    old(self).kill_spec()
                } else {
                    *old(self)
                };
                *final(self) == if k.processed < k.requested {
                    k.record_spec(*outcome)
                } else {
                    k
                }
            }),
    {
        if kill {
            self.kill();
        }
        if self.processed < self.requested {
            self.record(outcome);
        }
    }

    pub fn done(&self) -> (r: bool)
        ensures
            r == self.done_spec(),
    {
        self.killed || self.requested == self.processed
    }

    pub fn kill(&mut self)
        ensures
            *final(self) == old(self).kill_spec(),
    {
        self.killed = true;
    }
}

/// A point-in-time copy of the counters, extended with how long the run
/// has been going, ready for rendering.
pub struct StateSerialize {
    pub took: u64,
    pub requested: usize,
    pub processed: usize,
    pub success: usize,
    pub fail: usize,
    pub error: usize,
}

pub open spec fn dec_of(n: int) -> Seq<char> {
    dec_rep(n as nat)
}

/// The human-readable one-line report.
pub open spec fn counters_line(
    requested: int,
    processed: int,
    success: int,
    fail: int,
    error: int,
    duration: int,
) -> Seq<char> {
    "requested="@ + dec_of(requested) + " processed="@ + dec_of(processed) + " success="@ + dec_of(
        success,
    ) + " fail="@ + dec_of(fail) + " error="@ + dec_of(error) + " duration="@ + dec_of(duration)
        + "ms"@
}

/// The JSON object report.
pub open spec fn json_view(
    requested: int,
    processed: int,
    success: int,
    fail: int,
    error: int,
    took: int,
) -> Seq<char> {
    "{\"requested\":"@ + dec_of(requested) + ",\"processed\":"@ + dec_of(processed)
        + ",\"success\":"@ + dec_of(success) + ",\"fail\":"@ + dec_of(fail) + ",\"error\":"@
        + dec_of(error) + ",\"took_ms\":"@ + dec_of(took) + "}"@
}

/// The CSV report: one header row, one value row.
pub open spec fn csv_view(
    requested: int,
    processed: int,
    success: int,
    fail: int,
    error: int,
    took: int,
) -> Seq<char> {
    "requested,processed,success,fail,error,took_ms\n"@ + dec_of(requested) + ","@ + dec_of(
        processed,
    ) + ","@ + dec_of(success) + ","@ + dec_of(fail) + ","@ + dec_of(error) + ","@ + dec_of(took)
        + "\n"@
}

impl StateSerialize {
    pub fn to_json(&self) -> (r: String)
        ensures
            r@ == json_view(
                self.requested as int,
                self.processed as int,
                self.success as int,
                self.fail as int,
                self.error as int,
                self.took as int,
            ),
    {
        let mut out = "{\"requested\":".to_owned();
        let n = u64_to_string(self.requested as u64);
        out.append(n.as_str());
        out.append(",\"processed\":");
        let n = u64_to_string(self.processed as u64);
        out.append(n.as_str());
        out.append(",\"success\":");
        let n = u64_to_string(self.success as u64);
        out.append(n.as_str());
        out.append(",\"fail\":");
        let n = u64_to_string(self.fail as u64);
        out.append(n.as_str());
        out.append(",\"error\":");
        let n = u64_to_string(self.error as u64);
        out.append(n.as_str());
        out.append(",\"took_ms\":");
        let n = u64_to_string(self.took);
        out.append(n.as_str());
        out.append("}");
        out
    }

    pub fn to_csv(&self) -> (r: String)
        ensures
            r@ == csv_view(
                self.requested as int,
                self.processed as int,
                self.success as int,
                self.fail as int,
                self.error as int,
                self.took as int,
            ),
    {
        let mut out = "requested,processed,success,fail,error,took_ms\n".to_owned();
        let n = u64_to_string(self.requested as u64);
        out.append(n.as_str());
        out.append(",");
        let n = u64_to_string(self.processed as u64);
        out.append(n.as_str());
        out.append(",");
        let n = u64_to_string(self.success as u64);
        out.append(n.as_str());
        out.append(",");
        let n = u64_to_string(self.fail as u64);
        out.append(n.as_str());
        out.append(",");
        let n = u64_to_string(self.error as u64);
        out.append(n.as_str());
        out.append(",");
        let n = u64_to_string(self.took);
        out.append(n.as_str());
        out.append("\n");
        out
    }
}

impl State {
    /// How many milliseconds the run has been going, by the clock now.
    fn elapsed(&self) -> u64 {
        let now = now_millis();
        if now >= self.start {
            now - self.start
        } else {
            0
        }
    }

    /// Renders the one-line human-readable report for a given duration.
    pub fn render_line(&self, duration_ms: u64) -> (r: String)
        ensures
            r@ == counters_line(
                self.requested as int,
                self.processed as int,
                self.success as int,
                self.fail as int,
                self.error as int,
                duration_ms as int,
            ),
    {
        let d = duration_ms;
        let mut out = "requested=".to_owned();
        let n = u64_to_string(self.requested as u64);
        out.append(n.as_str());
        out.append(" processed=");
        let n = u64_to_string(self.processed as u64);
        out.append(n.as_str());
        out.append(" success=");
        let n = u64_to_string(self.success as u64);
        out.append(n.as_str());
        out.append(" fail=");
        let n = u64_to_string(self.fail as u64);
        out.append(n.as_str());
        out.append(" error=");
        let n = u64_to_string(self.error as u64);
        out.append(n.as_str());
        out.append(" duration=");
        let n = u64_to_string(d);
        out.append(n.as_str());
        out.append("ms");
        proof {
            assert(out@ == counters_line(
                self.requested as int,
                self.processed as int,
                self.success as int,
                self.fail as int,
                self.error as int,
                d as int,
            ));
        }
        out
    }

    /// Renders the one-line human-readable report. The duration is whatever
    /// the clock says; everything else is exact.
    pub fn string(&self) -> (r: String)
        ensures
            exists|d: int|
                0 <= d <= u64::MAX && r@ == counters_line(
                    self.requested as int,
                    self.processed as int,
                    self.success as int,
                    self.fail as int,
                    self.error as int,
                    d,
                ),
    {
        let d = self.elapsed();
        self.render_line(d)
    }

    /// Snapshots the counters beside the elapsed time.
    pub fn to_seralizer(&self) -> (r: StateSerialize)
        ensures
            r.requested == self.requested,
            r.processed == self.processed,
            r.success == self.success,
            r.fail == self.fail,
            r.error == self.error,
    {
        StateSerialize {
            took: self.elapsed(),
            requested: self.requested,
            processed: self.processed,
            success: self.success,
            fail: self.fail,
            error: self.error,
        }
    }

    /// Renders the JSON report. The elapsed time is whatever the clock
    /// says; every counter is exact.
    pub fn to_json(&self) -> (r: String)
        ensures
            exists|t: int|
                0 <= t <= u64::MAX && r@ == json_view(
                    self.requested as int,
                    self.processed as int,
                    self.success as int,
                    self.fail as int,
                    self.error as int,
                    t,
                ),
    {
        let ser = self.to_seralizer();
        ser.to_json()
    }

    /// Renders the CSV report. The elapsed time is whatever the clock
    /// says; every counter is exact.
    pub fn to_csv(&self) -> (r: String)
        ensures
            exists|t: int|
                0 <= t <= u64::MAX && r@ == csv_view(
                    self.requested as int,
                    self.processed as int,
                    self.success as int,
                    self.fail as int,
                    self.error as int,
                    t,
                ),
    {
        let ser = self.to_seralizer();
        ser.to_csv()
    }
}

/// The state after a whole sequence of outcomes has been recorded, in order.
pub open spec fn run_spec(s: State, outs: Seq<Outcome>) -> State
    decreases outs.len(),
{
    if outs.len() == 0 {
        s
    } else {
        run_spec(s.record_spec(outs[0]), outs.drop_first())
    }
}

/// Law: however many outcomes are recorded, and in whatever order, the
/// per-kind counters balance the processed count at every point, each
/// outcome is counted exactly once, and neither the target nor the kill
/// flag moves.
pub proof fn lemma_run_counts(s: State, outs: Seq<Outcome>)
    requires
        s.wf(),
        s.processed + outs.len() <= s.requested,
    ensures
        run_spec(s, outs).wf(),
        run_spec(s, outs).processed == s.processed + outs.len(),
        run_spec(s, outs).requested == s.requested,
        run_spec(s, outs).killed == s.killed,
        run_spec(s, outs).start == s.start,
    decreases outs.len(),
{
    if outs.len() > 0 {
        lemma_run_counts(s.record_spec(outs[0]), outs.drop_first());
    }
}

/// Law: starting fresh, the run is complete exactly when as many outcomes
/// have been recorded as were requested; never before, and only once.
pub proof fn lemma_normal_completion(requested: usize, start: u64, outs: Seq<Outcome>)
    requires
        outs.len() <= requested,
    ensures
        run_spec(State::initial_spec(requested, start), outs).done_spec() <==> outs.len()
            == requested,
{
    lemma_run_counts(State::initial_spec(requested, start), outs);
}

/// Law: killing a run makes it done at once, whatever the counters hold,
/// and no further recording is needed.
pub proof fn lemma_kill_forces_done(s: State)
    ensures
        s.kill_spec().done_spec(),
{
}

} // verus!
