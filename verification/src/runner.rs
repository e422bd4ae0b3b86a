//! The sampling run: steps are drawn from a source and probed until enough
//! of them have been measured in full, or until the attempts run out.
//!
//! The run itself performs no download. It says when a step is to be drawn,
//! which three requests that step asks for, and what the three outcomes add to
//! the report. A caller carries out the requests in between.

use vstd::prelude::*;

use crate::command::{draw_step, label_of, standing_step, Command, Step, StepView};
use crate::probe::{ProbeOutcome, ProbeRequest};

verus! {

/// The header under which both edges tell how they served a response.
pub const CACHE_HEADER: &'static str = "x-cache";

/// What a value under that header begins with when Fastly served from cache.
pub const FASTLY_CACHE_HIT: &'static str = "HIT";

/// What a value under that header begins with when Cloudfront served from cache.
pub const CLOUDFRONT_CACHE_HIT: &'static str = "Hit";

/// The three downloads of one step, to be carried out in this order: the
/// Fastly edge, the Cloudfront edge, the origin store.
#[derive(Clone, Debug, PartialEq, Eq)]
pub struct ProbePlan {
    pub fastly: ProbeRequest,
    pub cloudfront: ProbeRequest,
    pub s3: ProbeRequest,
}

/// A request that checks for a cache hit under `header`, told by `value`.
pub open spec fn checks_cache(
    request: ProbeRequest,
    url: Seq<char>,
    header: Seq<char>,
    value: Seq<char>,
) -> bool {
    &&& request.url@ == url
    &&& request.cache_hit_header matches Some(h) && h@ == header
    &&& request.cache_hit_value matches Some(v) && v@ == value
}

/// Whether `plan` is the plan for `step`: each edge is asked at its address
/// of the step, with the marker by which it tells a cache hit, and the origin
/// store at its address, without a check.
pub open spec fn plans(plan: ProbePlan, step: StepView) -> bool {
    &&& checks_cache(plan.fastly, step.fastly_url, CACHE_HEADER@, FASTLY_CACHE_HIT@)
    &&& checks_cache(plan.cloudfront, step.cloudfront_url, CACHE_HEADER@, CLOUDFRONT_CACHE_HIT@)
    &&& plan.s3.url@ == step.s3_url
    &&& plan.s3.cache_hit_header is None
    &&& plan.s3.cache_hit_value is None
}

/// Plans the downloads of `step`. Each edge is asked with the marker by which
/// it tells a cache hit; the origin store keeps no cache and is asked without.
pub fn plan_probes(step: Step) -> (plan: ProbePlan)
    ensures
        plans(plan, step@),
{
    ProbePlan {
        fastly: ProbeRequest {
            url: step.fastly_url,
            cache_hit_header: Some(CACHE_HEADER),
            cache_hit_value: Some(FASTLY_CACHE_HIT),
        },
        cloudfront: ProbeRequest {
            url: step.cloudfront_url,
            cache_hit_header: Some(CACHE_HEADER),
            cache_hit_value: Some(CLOUDFRONT_CACHE_HIT),
        },
        s3: ProbeRequest { url: step.s3_url, cache_hit_header: None, cache_hit_value: None },
    }
}

/// One row of the report: a step whose three downloads were all measured,
/// with their rates in whole kilobytes per second.
#[derive(Clone, Debug, PartialEq, Eq)]
pub struct Stats {
    pub step: String,
    pub fastly: usize,
    pub cloudfront: usize,
    pub s3: usize,
}

/// A row with its label as plain text.
pub struct StatsView {
    pub step: Seq<char>,
    pub fastly: usize,
    pub cloudfront: usize,
    pub s3: usize,
}

impl View for Stats {
    type V = StatsView;

    open spec fn view(&self) -> StatsView {
        StatsView {
            step: self.step@,
            fastly: self.fastly,
            cloudfront: self.cloudfront,
            s3: self.s3,
        }
    }
}

/// The rows of a report, each with its label as plain text.
pub open spec fn stats_views(rows: Seq<Stats>) -> Seq<StatsView> {
    Seq::new(rows.len(), |i: int| rows[i]@)
}

/// One attempt: the step that was drawn and what its three downloads came to.
pub struct Trial {
    pub step: Seq<char>,
    pub fastly: ProbeOutcome,
    pub cloudfront: ProbeOutcome,
    pub s3: ProbeOutcome,
}

/// The row that an attempt yields: one only where all three downloads were
/// measured. A cache hit or a failure of any of them leaves no row, and
/// nothing of the other two is kept.
pub open spec fn trial_row(trial: Trial) -> Option<StatsView> {
    match (trial.fastly, trial.cloudfront, trial.s3) {
        (
            ProbeOutcome::Measured(fastly),
            ProbeOutcome::Measured(cloudfront),
            ProbeOutcome::Measured(s3),
        ) => Some(StatsView { step: trial.step, fastly, cloudfront, s3 }),
        _ => None,
    }
}

/// Gathers the three outcomes of one step into a row of the report, if all
/// three are measurements.
pub fn download_artifacts(
    step: &str,
    fastly: ProbeOutcome,
    cloudfront: ProbeOutcome,
    s3: ProbeOutcome,
) -> (stats: Option<Stats>)
    ensures
        match stats {
            Some(row) => trial_row(Trial { step: step@, fastly, cloudfront, s3 }) == Some(row@),
            None => trial_row(Trial { step: step@, fastly, cloudfront, s3 }) is None,
        },
{
    match (fastly, cloudfront, s3) {
        (
            ProbeOutcome::Measured(fastly),
            ProbeOutcome::Measured(cloudfront),
            ProbeOutcome::Measured(s3),
        ) => Some(Stats { step: step.to_owned(), fastly, cloudfront, s3 }),
        _ => None,
    }
}

/// A run at some moment: its two budgets, the attempts made and the rows
/// gathered so far.
pub struct RunState {
    pub max_attempts: nat,
    pub max_samples: nat,
    pub attempts: nat,
    pub rows: Seq<StatsView>,
}

/// A run before its first attempt.
pub open spec fn fresh_run(max_attempts: nat, max_samples: nat) -> RunState {
    RunState { max_attempts, max_samples, attempts: 0, rows: Seq::empty() }
}

/// Whether the run goes on to another step: it does while it lacks samples
/// and has attempts left.
pub open spec fn wants_step(state: RunState) -> bool {
    state.rows.len() < state.max_samples && state.attempts < state.max_attempts
}

/// The run after one more attempt. The attempt counts whatever it came to;
/// its row, if it has one, goes to the end of the report. A run that wants no
/// step takes no attempt.
pub open spec fn after_trial(state: RunState, trial: Trial) -> RunState {
    if wants_step(state) {
        RunState {
            attempts: state.attempts + 1,
            rows: match trial_row(trial) {
                Some(row) => state.rows.push(row),
                None => state.rows,
            },
            ..state
        }
    } else {
        state
    }
}

/// The run after the attempts `trials`, taken in order.
pub open spec fn after_trials(state: RunState, trials: Seq<Trial>) -> RunState
    decreases trials.len(),
{
    if trials.len() == 0 {
        state
    } else {
        after_trial(after_trials(state, trials.drop_last()), trials.last())
    }
}

/// A whole run over a source whose steps, with what probing them comes to,
/// are `trials`. The run stops by itself: `attempts` of the result tells how
/// many of the steps it drew.
pub open spec fn run_over(trials: Seq<Trial>, max_attempts: nat, max_samples: nat) -> RunState {
    after_trials(fresh_run(max_attempts, max_samples), trials)
}

/// A run within its budgets: no more rows than samples asked for, no more
/// attempts than allowed, and no row without an attempt.
pub open spec fn within_budgets(state: RunState) -> bool {
    &&& state.rows.len() <= state.max_samples
    &&& state.attempts <= state.max_attempts
    &&& state.rows.len() <= state.attempts
}

/// The smallest of three numbers.
pub open spec fn least(a: nat, b: nat, c: nat) -> nat {
    if a <= b && a <= c {
        a
    } else if b <= c {
        b
    } else {
        c
    }
}

/// The state of a sampling run.
pub struct BenchmarkRunner {
    max_attempts: usize,
    max_samples: usize,
    attempts: usize,
    output: Vec<Stats>,
}

impl View for BenchmarkRunner {
    type V = RunState;

    closed spec fn view(&self) -> RunState {
        RunState {
            max_attempts: self.max_attempts as nat,
            max_samples: self.max_samples as nat,
            attempts: self.attempts as nat,
            rows: stats_views(self.output@),
        }
    }
}

impl BenchmarkRunner {
    #[verifier::type_invariant]
    spec fn in_budget(&self) -> bool {
        &&& self.output.len() <= self.max_samples
        &&& self.attempts <= self.max_attempts
        &&& self.output.len() <= self.attempts
    }

    /// Starts a run that stops after `max_samples` rows or `max_attempts`
    /// steps, whichever comes first.
    pub fn new(max_attempts: usize, max_samples: usize) -> (runner: Self)
        ensures
            runner@ == fresh_run(max_attempts as nat, max_samples as nat),
    {
        let runner = BenchmarkRunner { max_attempts, max_samples, attempts: 0, output: Vec::new() };
        assert(runner@.rows =~= Seq::empty());
        runner
    }

    /// Tells whether the run goes on to another step.
    pub fn wants_step(&self) -> (wanted: bool)
        ensures
            wanted == wants_step(self@),
            within_budgets(self@),
    {
        proof {
            use_type_invariant(self);
        }
        self.output.len() < self.max_samples && self.attempts < self.max_attempts
    }

    /// The number of steps recorded so far.
    pub fn attempts(&self) -> (attempts: usize)
        ensures
            attempts == self@.attempts,
    {
        self.attempts
    }

    /// Draws the step to probe next, or `None` when the run is over: when a
    /// budget is used up, in which case the source is left as it is, or when
    /// the source has no further step.
    ///
    /// A run that wants a step asks the source once, as [`draw_step`] does,
    /// and hands out the step that the source then stands on.
    pub fn next_step<C: Command>(&self, source: &mut C) -> (step: Option<Step>)
        ensures
            !wants_step(self@) ==> step is None && *final(source) == *old(source),
            wants_step(self@) ==> old(source).steps_to(label_of(step), &*final(source)),
            step matches Some(s) ==> standing_step(final(source)) == Some(s@),
    {
        if self.wants_step() {
            draw_step(source)
        } else {
            None
        }
    }

    /// Records what the three downloads of the step labelled `step` came to.
    ///
    /// The step counts as one attempt whatever the outcomes. It adds a row,
    /// at the end of the report, only where all three are measurements. What
    /// is recorded after the run is over is ignored.
    pub fn record(
        &mut self,
        step: &str,
        fastly: ProbeOutcome,
        cloudfront: ProbeOutcome,
        s3: ProbeOutcome,
    )
        ensures
            final(self)@ == after_trial(old(self)@, Trial { step: step@, fastly, cloudfront, s3 }),
            wants_step(old(self)@) ==> final(self)@.attempts == old(self)@.attempts + 1,
            trial_row(Trial { step: step@, fastly, cloudfront, s3 }) is None ==> final(self)@.rows
                == old(self)@.rows,
            within_budgets(final(self)@),
    {
        proof {
            use_type_invariant(&*self);
        }
        if self.output.len() < self.max_samples && self.attempts < self.max_attempts {
            let stats = download_artifacts(step, fastly, cloudfront, s3);
            match stats {
                Some(row) => {
                    let ghost before = self.output@;
                    self.attempts = self.attempts + 1;
                    let mut output: Vec<Stats> = Vec::new();
                    std::mem::swap(&mut output, &mut self.output);
                    output.push(row);
                    self.output = output;
                    assert(stats_views(self.output@) =~= stats_views(before).push(row@));
                },
                None => {
                    self.attempts = self.attempts + 1;
                },
            }
        }
    }

    /// Ends the run and hands out the report: the rows in the order in which
    /// their steps were recorded.
    pub fn finish(self) -> (rows: Vec<Stats>)
        ensures
            stats_views(rows@) == self@.rows,
            rows.len() <= self@.max_samples,
            rows.len() <= self@.attempts <= self@.max_attempts,
    {
        proof {
            use_type_invariant(&self);
        }
        self.output
    }
}

/// Whether `trial` is the attempt made on `step`: it carries the step's
/// label, and its three outcomes are what `probe` returned for the three
/// requests planned for the step.
pub open spec fn probed<P: Fn(&ProbeRequest) -> ProbeOutcome>(
    probe: P,
    step: StepView,
    trial: Trial,
) -> bool {
    &&& trial.step == step.label
    &&& exists|plan: ProbePlan|
        {
            &&& #[trigger] plans(plan, step)
            &&& call_ensures(probe, (&plan.fastly,), trial.fastly)
            &&& call_ensures(probe, (&plan.cloudfront,), trial.cloudfront)
            &&& call_ensures(probe, (&plan.s3,), trial.s3)
        }
}

/// Whether the attempt `trials[i]` was made where the source stepped from
/// `path[i]` to `path[i + 1]`: the source stepped with the attempt's label,
/// and the attempt was made on the step on which it then stood.
pub open spec fn attempt_at<C: Command, P: Fn(&ProbeRequest) -> ProbeOutcome>(
    probe: P,
    trials: Seq<Trial>,
    path: Seq<C>,
    i: int,
) -> bool {
    &&& path[i].steps_to(Some(trials[i].step), &path[i + 1])
    &&& standing_step(&path[i + 1]) matches Some(step) && probed(probe, step, trials[i])
}

/// Whether the attempts `trials` were made along `path`: the source passed
/// through the states of `path`, one step for each attempt, in order.
pub open spec fn walked<C: Command, P: Fn(&ProbeRequest) -> ProbeOutcome>(
    probe: P,
    trials: Seq<Trial>,
    path: Seq<C>,
) -> bool {
    &&& path.len() == trials.len() + 1
    &&& forall|i: int| 0 <= i < trials.len() ==> #[trigger] attempt_at(probe, trials, path, i)
}

/// Whether a run that found its source as `start` and left it as `end` made
/// the attempts `trials`, the source passing through `path` on the way.
///
/// The source sets out as `path[0]` and steps from each state to the next
/// with the label of the attempt made there; the attempt is made on the step
/// on which the source then stands, by probing. The run draws all of its
/// attempts and stops only when it wants no further step, or when the source,
/// asked once more, has none.
pub open spec fn run_made<C: Command, P: Fn(&ProbeRequest) -> ProbeOutcome>(
    start: C,
    end: C,
    probe: P,
    max_attempts: nat,
    max_samples: nat,
    trials: Seq<Trial>,
    path: Seq<C>,
) -> bool {
    &&& walked(probe, trials, path)
    &&& path[0] == start
    &&& run_over(trials, max_attempts, max_samples).attempts == trials.len()
    &&& if wants_step(run_over(trials, max_attempts, max_samples)) {
        path.last().steps_to(None, &end)
    } else {
        end == path.last()
    }
}

/// One more attempt, made where the source steps on from the end of a path,
/// lengthens the path by the state that the source comes to.
pub proof fn lemma_walk_goes_on<C: Command, P: Fn(&ProbeRequest) -> ProbeOutcome>(
    probe: P,
    trials: Seq<Trial>,
    path: Seq<C>,
    trial: Trial,
    next: C,
)
    requires
        walked(probe, trials, path),
        path.last().steps_to(Some(trial.step), &next),
        standing_step(&next) matches Some(step) && probed(probe, step, trial),
    ensures
        walked(probe, trials.push(trial), path.push(next)),
{
    let longer = trials.push(trial);
    let further = path.push(next);
    assert forall|i: int| 0 <= i < longer.len() implies #[trigger] attempt_at(
        probe,
        longer,
        further,
        i,
    ) by {
        if i < trials.len() {
            assert(attempt_at(probe, trials, path, i));
        }
    }
}

/// Runs to the end: draws step after step from `source`, has `probe` carry
/// out the three downloads of each, Fastly first, then Cloudfront, then the
/// origin store, and gathers the rows of the steps that were measured in
/// full, in the order in which the steps were drawn.
///
/// The run ends when it has `max_samples` rows, when it has drawn
/// `max_attempts` steps, or when the source has no further step. All three
/// downloads of a step are carried out, whatever the first ones come to.
///
/// What the source yields and what `probe` returns is not known beforehand,
/// so the report is stated over what the run met: the attempts it made are
/// the steps of the source, one after another from where the source stood,
/// each with the outcomes that `probe` returned for it, as [`run_made`] says,
/// and the report is [`run_over`] these attempts.
pub fn run<C: Command, P: Fn(&ProbeRequest) -> ProbeOutcome>(
    source: &mut C,
    probe: P,
    max_attempts: usize,
    max_samples: usize,
) -> (rows: Vec<Stats>)
    requires
        forall|request: &ProbeRequest| call_requires(probe, (request,)),
    ensures
        rows.len() <= max_samples,
        exists|trials: Seq<Trial>, path: Seq<C>|
            {
                &&& #[trigger] run_made(
                    *old(source),
                    *final(source),
                    probe,
                    max_attempts as nat,
                    max_samples as nat,
                    trials,
                    path,
                )
                &&& trials.len() <= max_attempts
                &&& stats_views(rows@) == run_over(
                    trials,
                    max_attempts as nat,
                    max_samples as nat,
                ).rows
            },
        max_attempts == 0 || max_samples == 0 ==> rows.len() == 0 && *final(source) == *old(
            source,
        ),
{
    let mut runner = BenchmarkRunner::new(max_attempts, max_samples);
    let ghost start = *source;
    let ghost mut trials: Seq<Trial> = Seq::empty();
    let ghost mut path: Seq<C> = seq![start];
    let mut going = true;
    while going
        invariant
            forall|request: &ProbeRequest| call_requires(probe, (request,)),
            runner@ == run_over(trials, max_attempts as nat, max_samples as nat),
            runner@.attempts == trials.len(),
            runner@.max_attempts == max_attempts,
            runner@.max_samples == max_samples,
            within_budgets(runner@),
            walked(probe, trials, path),
            path[0] == start,
            going ==> *source == path.last(),
            !going ==> if wants_step(runner@) {
                path.last().steps_to(None, &*source)
            } else {
                *source == path.last()
            },
            max_attempts == 0 || max_samples == 0 ==> trials.len() == 0,
        decreases max_attempts - runner@.attempts, if going { 1int } else { 0int },
    {
        match runner.next_step(source) {
            None => {
                going = false;
            },
            Some(step) => {
                let ghost drawn = step@;
                let label = step.label.clone();
                let plan = plan_probes(step);
                let fastly = probe(&plan.fastly);
                let cloudfront = probe(&plan.cloudfront);
                let s3 = probe(&plan.s3);
                runner.record(label.as_str(), fastly, cloudfront, s3);
                proof {
                    let trial = Trial { step: label@, fastly, cloudfront, s3 };
                    assert(plans(plan, drawn));
                    assert(probed(probe, drawn, trial));
                    lemma_walk_goes_on(probe, trials, path, trial, *source);
                    assert(trials.push(trial).drop_last() =~= trials);
                    trials = trials.push(trial);
                    path = path.push(*source);
                }
            },
        }
    }
    assert(run_made(
        start,
        *source,
        probe,
        max_attempts as nat,
        max_samples as nat,
        trials,
        path,
    ));
    runner.finish()
}

/// One more attempt keeps a run within its budgets.
pub proof fn lemma_trial_keeps_budgets(state: RunState, trial: Trial)
    requires
        within_budgets(state),
    ensures
        within_budgets(after_trial(state, trial)),
        after_trial(state, trial).attempts <= state.attempts + 1,
        after_trial(state, trial).max_attempts == state.max_attempts,
        after_trial(state, trial).max_samples == state.max_samples,
{
}

/// A run never returns more rows than `max_samples` and never draws more
/// steps than `max_attempts`, nor more than the source has, whatever the
/// steps and whatever their downloads come to.
pub proof fn lemma_run_within_budgets(trials: Seq<Trial>, max_attempts: nat, max_samples: nat)
    ensures
        run_over(trials, max_attempts, max_samples).rows.len() <= max_samples,
        run_over(trials, max_attempts, max_samples).attempts <= max_attempts,
        run_over(trials, max_attempts, max_samples).attempts <= trials.len(),
        run_over(trials, max_attempts, max_samples).rows.len() <= run_over(
            trials,
            max_attempts,
            max_samples,
        ).attempts,
        run_over(trials, max_attempts, max_samples).max_attempts == max_attempts,
        run_over(trials, max_attempts, max_samples).max_samples == max_samples,
    decreases trials.len(),
{
    if trials.len() > 0 {
        lemma_run_within_budgets(trials.drop_last(), max_attempts, max_samples);
        lemma_trial_keeps_budgets(
            run_over(trials.drop_last(), max_attempts, max_samples),
            trials.last(),
        );
    }
}

/// Where every download of every step is measured, the run draws the least
/// of `max_samples`, `max_attempts` and the number of steps the source has,
/// and reports exactly those steps, in the order in which they were drawn.
pub proof fn lemma_all_measured_run(trials: Seq<Trial>, max_attempts: nat, max_samples: nat)
    requires
        forall|i: int| 0 <= i < trials.len() ==> trial_row(#[trigger] trials[i]) is Some,
    ensures
        run_over(trials, max_attempts, max_samples).attempts == least(
            max_samples,
            max_attempts,
            trials.len(),
        ),
        run_over(trials, max_attempts, max_samples).rows == Seq::new(
            least(max_samples, max_attempts, trials.len()),
            |i: int| trial_row(trials[i]).unwrap(),
        ),
    decreases trials.len(),
{
    let done = run_over(trials, max_attempts, max_samples);
    let count = least(max_samples, max_attempts, trials.len());
    let wanted = Seq::new(count, |i: int| trial_row(trials[i]).unwrap());
    if trials.len() == 0 {
        assert(done.rows =~= wanted);
    } else {
        let front = trials.drop_last();
        lemma_all_measured_run(front, max_attempts, max_samples);
        let before = run_over(front, max_attempts, max_samples);
        let drawn = least(max_samples, max_attempts, front.len());
        lemma_run_within_budgets(front, max_attempts, max_samples);
        assert(forall|i: int| 0 <= i < front.len() ==> front[i] == trials[i]);
        assert(before.rows.len() == drawn);
        assert(forall|i: int| 0 <= i < drawn ==> before.rows[i] == trial_row(trials[i]).unwrap());
        if wants_step(before) {
            // Neither budget has cut the run short, so the last step is drawn too.
            assert(drawn == front.len());
            assert(trial_row(trials.last()) is Some);
            assert(done.rows == before.rows.push(trial_row(trials.last()).unwrap()));
        } else {
            assert(count == drawn);
        }
        assert(done.rows =~= wanted);
    }
}

/// With attempts enough for them, a run over steps that are all measured
/// returns as many rows as `max_samples` asks for, or as the source has steps
/// if those are fewer.
pub proof fn lemma_all_measured_length(trials: Seq<Trial>, max_attempts: nat, max_samples: nat)
    requires
        forall|i: int| 0 <= i < trials.len() ==> trial_row(#[trigger] trials[i]) is Some,
        max_attempts >= max_samples || max_attempts >= trials.len(),
    ensures
        run_over(trials, max_attempts, max_samples).rows.len() == if max_samples <= trials.len() {
            max_samples
        } else {
            trials.len()
        },
{
    lemma_all_measured_run(trials, max_attempts, max_samples);
}

/// A step with a cache hit or a failure among its three downloads adds no
/// row to the report and still uses up exactly one attempt.
pub proof fn lemma_unusable_step(state: RunState, trial: Trial)
    requires
        wants_step(state),
        !(trial.fastly is Measured) || !(trial.cloudfront is Measured) || !(trial.s3 is Measured),
    ensures
        after_trial(state, trial).rows == state.rows,
        after_trial(state, trial).attempts == state.attempts + 1,
{
}

/// Where no step is measured in full, the report stays empty and the run
/// goes on for as long as it has attempts and the source has steps: it draws
/// the lesser of `max_attempts` and the number of steps, or none at all where
/// no sample is asked for.
pub proof fn lemma_none_measured_run(trials: Seq<Trial>, max_attempts: nat, max_samples: nat)
    requires
        forall|i: int| 0 <= i < trials.len() ==> trial_row(#[trigger] trials[i]) is None,
    ensures
        run_over(trials, max_attempts, max_samples).rows == Seq::<StatsView>::empty(),
        run_over(trials, max_attempts, max_samples).attempts == if max_samples == 0 {
            0
        } else if max_attempts <= trials.len() {
            max_attempts
        } else {
            trials.len()
        },
    decreases trials.len(),
{
    if trials.len() > 0 {
        let front = trials.drop_last();
        assert(forall|i: int| 0 <= i < front.len() ==> front[i] == trials[i]);
        lemma_none_measured_run(front, max_attempts, max_samples);
        lemma_run_within_budgets(front, max_attempts, max_samples);
        assert(trial_row(trials.last()) is None);
    }
}

/// With no attempt allowed a run draws no step and returns no row.
pub proof fn lemma_no_attempts_no_rows(trials: Seq<Trial>, max_samples: nat)
    ensures
        run_over(trials, 0, max_samples).attempts == 0,
        run_over(trials, 0, max_samples).rows == Seq::<StatsView>::empty(),
{
    lemma_run_within_budgets(trials, 0, max_samples);
    assert(run_over(trials, 0, max_samples).rows =~= Seq::<StatsView>::empty());
}

/// The steps that a run does not draw do not matter to it: a run over the
/// steps it drew is the same run.
pub proof fn lemma_run_reads_what_it_draws(
    trials: Seq<Trial>,
    max_attempts: nat,
    max_samples: nat,
)
    ensures
        run_over(trials, max_attempts, max_samples) == run_over(
            trials.take(run_over(trials, max_attempts, max_samples).attempts as int),
            max_attempts,
            max_samples,
        ),
    decreases trials.len(),
{
    let done = run_over(trials, max_attempts, max_samples);
    lemma_run_within_budgets(trials, max_attempts, max_samples);
    if trials.len() == 0 {
        assert(trials.take(0) =~= trials);
    } else {
        let front = trials.drop_last();
        let before = run_over(front, max_attempts, max_samples);
        lemma_run_reads_what_it_draws(front, max_attempts, max_samples);
        lemma_run_within_budgets(front, max_attempts, max_samples);
        if wants_step(before) {
            // Every step so far was drawn, and so is the last.
            lemma_wanting_run_drew_all(front, max_attempts, max_samples);
            assert(trials.take(trials.len() as int) =~= trials);
        } else {
            assert(done == before);
            assert(front.take(before.attempts as int) =~= trials.take(before.attempts as int));
        }
    }
}

/// A run that still wants a step has drawn every step it was given.
pub proof fn lemma_wanting_run_drew_all(trials: Seq<Trial>, max_attempts: nat, max_samples: nat)
    requires
        wants_step(run_over(trials, max_attempts, max_samples)),
    ensures
        run_over(trials, max_attempts, max_samples).attempts == trials.len(),
    decreases trials.len(),
{
    if trials.len() > 0 {
        let before = run_over(trials.drop_last(), max_attempts, max_samples);
        lemma_run_within_budgets(trials.drop_last(), max_attempts, max_samples);
        if wants_step(before) {
            lemma_wanting_run_drew_all(trials.drop_last(), max_attempts, max_samples);
        }
    }
}

} // verus!
