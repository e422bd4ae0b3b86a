//! A walk back over the calendar, one day at a step, beginning today.
//!
//! A day is held as its number in the proleptic Gregorian calendar, with
//! 1 January of the year 1 as day 1. `chrono` tells which day the clock reads
//! and writes a day's label; the walk itself is arithmetic on day numbers.

use chrono::Datelike;
use vstd::prelude::*;
use vstd::string::*;

use crate::command::Command;
use crate::probe::{ProbeOutcome, ProbeRequest};
use crate::runner::{attempt_at, run_made, Trial};

verus! {

/// The number of the first day that `chrono` holds: 1 January of the year
/// -262143, which is 262144 BCE.
pub const FIRST_DAY: i32 = -95_746_129;

/// The number of the last day that `chrono` holds: 31 December of the year
/// 262142.
pub const LAST_DAY: i32 = 95_745_399;

/// The file that is fetched for every day.
pub const ARTIFACT: &'static str = "llvm-tools-nightly-aarch64-unknown-linux-gnu.tar.gz";

/// The host and path under which the Cloudfront edge serves releases.
pub const CLOUDFRONT_RELEASES: &'static str = "https://cloudfront-static.rust-lang.org/dist/";

/// The host and path under which the Fastly edge serves releases.
pub const FASTLY_RELEASES: &'static str = "https://fastly-static.rust-lang.org/dist/";

/// The host and path under which the origin store serves releases.
pub const S3_RELEASES: &'static str = "https://static-rust-lang-org.s3.us-west-1.amazonaws.com/dist/";

/// The label of day number `day`: what `chrono` writes for that date under
/// the format `%Y-%m-%d`.
pub uninterp spec fn date_label(day: int) -> Seq<char>;

/// Whether `day` is the number of a day that `chrono` holds.
pub open spec fn is_day(day: int) -> bool {
    FIRST_DAY <= day <= LAST_DAY
}

/// The day before `day`, where the calendar holds both.
pub open spec fn day_before(day: int) -> Option<int> {
    if is_day(day) && is_day(day - 1) {
        Some(day - 1)
    } else {
        None
    }
}

/// The first step of a walk that is begun when the clock reads `today`: the
/// walk sets out from the day after, so that its first step is `today`
/// itself. There is none where the calendar does not hold both days.
pub open spec fn first_step(today: int) -> Option<int> {
    day_before(today + 1)
}

/// The address under `base` of the artifact released on the day labelled
/// `label`.
pub open spec fn release_address(base: Seq<char>, label: Seq<char>) -> Seq<char> {
    base + label + "/"@ + ARTIFACT@
}

/// Writes the label of day number `day` with `chrono`:
/// `NaiveDate::from_num_days_from_ce_opt`, then `format("%Y-%m-%d")`.
///
/// Trusted: `chrono` holds every day from [`FIRST_DAY`] to [`LAST_DAY`], and
/// the label it writes is the one that [`date_label`] names, that is, it
/// depends on the day number and on nothing else.
#[verifier::external_body]
fn format_step(day: i32) -> (label: String)
    requires
        is_day(day as int),
    ensures
        label@ == date_label(day as int),
{
    chrono::NaiveDate::from_num_days_from_ce_opt(day).unwrap().format("%Y-%m-%d").to_string()
}

/// Reads the system clock and finds the number of the current UTC date with
/// `chrono::DateTime::from_timestamp`, `date_naive` and `num_days_from_ce`.
/// These are the steps of `chrono::Utc::now`, but for `None` where that
/// function panics: on a clock set before 1970, or past the calendar.
///
/// Trusted: whatever the clock says, a day that is returned is one that
/// `chrono` holds.
#[verifier::external_body]
fn today() -> (day: Option<i32>)
    ensures
        day matches Some(d) ==> is_day(d as int),
{
    let since = std::time::SystemTime::now().duration_since(std::time::UNIX_EPOCH).ok()?;
    let seconds = i64::try_from(since.as_secs()).ok()?;
    let moment = chrono::DateTime::from_timestamp(seconds, since.subsec_nanos())?;
    Some(moment.date_naive().num_days_from_ce())
}

fn release_url(base: &str, label: &str) -> (url: String)
    ensures
        url@ == release_address(base@, label@),
{
    let mut url = base.to_owned();
    url.append(label);
    url.append("/");
    url.append(ARTIFACT);
    url
}

/// A source whose steps are calendar days, each one day before the last.
///
/// A new source stands on no day. Its first step is the current UTC date,
/// read from the clock when the step is asked for.
#[derive(Debug)]
pub struct ReleasesCommand {
    current_step: Option<i32>,
}

impl ReleasesCommand {
    #[verifier::type_invariant]
    spec fn well_formed(&self) -> bool {
        self.current_step matches Some(day) ==> is_day(day as int)
    }

    /// The number of the day the source stands on.
    pub closed spec fn cursor(&self) -> Option<int> {
        match self.current_step {
            Some(day) => Some(day as int),
            None => None,
        }
    }

    /// Makes a source that stands on no day yet.
    pub fn new() -> (made: Self)
        ensures
            made.cursor() is None,
    {
        ReleasesCommand { current_step: None }
    }

    /// The number of the day the source stands on.
    pub fn current_day(&self) -> (day: Option<i32>)
        ensures
            self.cursor() == match day {
                Some(d) => Some(d as int),
                None => None,
            },
            day matches Some(d) ==> is_day(d as int),
    {
        proof {
            use_type_invariant(self);
        }
        self.current_step
    }

    /// Steps to the day before `day` and returns its label.
    ///
    /// Where the calendar does not hold both days there is no such step: the
    /// source stays where it stands and `None` is returned.
    pub fn step_back_from(&mut self, day: i32) -> (step: Option<String>)
        ensures
            match day_before(day as int) {
                Some(reached) => {
                    &&& final(self).cursor() == Some(reached)
                    &&& step.deep_view() == Some(date_label(reached))
                },
                None => {
                    &&& final(self).cursor() == old(self).cursor()
                    &&& step is None
                },
            },
    {
        if FIRST_DAY < day && day <= LAST_DAY {
            let reached: i32 = day - 1;
            self.current_step = Some(reached);
            Some(format_step(reached))
        } else {
            None
        }
    }

    /// Takes the first step of a walk, the clock reading `today`: the source
    /// comes to stand on `today` and that day's label is returned.
    ///
    /// Where the calendar does not hold `today` and the day after it, the
    /// walk cannot set out: the source stays where it stands and `None` is
    /// returned.
    pub fn step_to_today(&mut self, today: i32) -> (step: Option<String>)
        ensures
            first_step(today as int) is Some <==> is_day(today as int) && today < LAST_DAY,
            match first_step(today as int) {
                Some(reached) => {
                    &&& reached == today
                    &&& final(self).cursor() == Some(today as int)
                    &&& step.deep_view() == Some(date_label(today as int))
                },
                None => {
                    &&& final(self).cursor() == old(self).cursor()
                    &&& step is None
                },
            },
    {
        if today < LAST_DAY {
            self.step_back_from(today + 1)
        } else {
            None
        }
    }
}

impl Default for ReleasesCommand {
    fn default() -> (made: Self)
        ensures
            made.cursor() is None,
    {
        ReleasesCommand::new()
    }
}

impl Command for ReleasesCommand {
    open spec fn step_label(&self) -> Option<Seq<char>> {
        match self.cursor() {
            Some(day) => Some(date_label(day)),
            None => None,
        }
    }

    open spec fn cloudfront_address(&self) -> Option<Seq<char>> {
        match self.cursor() {
            Some(day) => Some(release_address(CLOUDFRONT_RELEASES@, date_label(day))),
            None => None,
        }
    }

    open spec fn fastly_address(&self) -> Option<Seq<char>> {
        match self.cursor() {
            Some(day) => Some(release_address(FASTLY_RELEASES@, date_label(day))),
            None => None,
        }
    }

    open spec fn s3_address(&self) -> Option<Seq<char>> {
        match self.cursor() {
            Some(day) => Some(release_address(S3_RELEASES@, date_label(day))),
            None => None,
        }
    }

    /// From a day the source steps to the day before it, if the calendar
    /// holds one, and else stays and has no step. From no day it takes the
    /// first step of a walk, to whichever day the clock reads as the current
    /// one, or stays and has no step where the clock gives no day to set out
    /// from.
    open spec fn steps_to(&self, step: Option<Seq<char>>, after: &Self) -> bool {
        match self.cursor() {
            Some(day) => match day_before(day) {
                Some(reached) => {
                    &&& after.cursor() == Some(reached)
                    &&& step == Some(date_label(reached))
                },
                None => {
                    &&& after.cursor() == self.cursor()
                    &&& step is None
                },
            },
            None => {
                ||| after.cursor() is None && step is None
                ||| exists|today: int|
                    {
                        &&& first_step(today) == Some(today)
                        &&& after.cursor() == Some(today)
                        &&& step == Some(#[trigger] date_label(today))
                    }
            },
        }
    }

    /// Steps one day back and returns that day's label.
    ///
    /// A source that stands on a day steps to the day before it, as
    /// [`ReleasesCommand::step_back_from`] does from that day. A source that
    /// stands on none reads the clock and takes the first step of its walk,
    /// as [`ReleasesCommand::step_to_today`] does for the day that the clock
    /// reads. `None` is returned at the first day of the calendar, and by a
    /// source that stands on no day where the clock gives no day to set out
    /// from.
    fn next_step(&mut self) -> (step: Option<String>) {
        match self.current_step {
            Some(day) => self.step_back_from(day),
            None => match today() {
                Some(today) => self.step_to_today(today),
                None => None,
            },
        }
    }

    fn cloudfront_url(&self) -> (url: Option<String>) {
        proof {
            use_type_invariant(self);
        }
        match self.current_step {
            Some(day) => Some(release_url(CLOUDFRONT_RELEASES, format_step(day).as_str())),
            None => None,
        }
    }

    fn fastly_url(&self) -> (url: Option<String>) {
        proof {
            use_type_invariant(self);
        }
        match self.current_step {
            Some(day) => Some(release_url(FASTLY_RELEASES, format_step(day).as_str())),
            None => None,
        }
    }

    fn s3_url(&self) -> (url: Option<String>) {
        proof {
            use_type_invariant(self);
        }
        match self.current_step {
            Some(day) => Some(release_url(S3_RELEASES, format_step(day).as_str())),
            None => None,
        }
    }
}

/// Along a walk, that is, a row of sources of which each steps to the next
/// with a label, every step is one day before the last: the step after `n`
/// others is the day `n` days before the first step, and its label is the
/// label of that day. This holds wherever the walk began: the first step may
/// have been taken from a day or, by the clock, from none.
pub proof fn lemma_walk_steps_back_daily(
    path: Seq<ReleasesCommand>,
    labels: Seq<Seq<char>>,
    n: int,
)
    requires
        path.len() == labels.len() + 1,
        forall|i: int|
            0 <= i < labels.len() ==> (#[trigger] path[i]).steps_to(Some(labels[i]), &path[i + 1]),
        0 <= n < labels.len(),
    ensures
        path[1].cursor() is Some,
        path[n + 1].cursor() == Some(path[1].cursor().unwrap() - n),
        labels[n] == date_label(path[1].cursor().unwrap() - n),
    decreases n,
{
    assert(path[0].steps_to(Some(labels[0]), &path[1]));
    if n > 0 {
        lemma_walk_steps_back_daily(path, labels, n - 1);
        assert(path[n].steps_to(Some(labels[n]), &path[n + 1]));
    }
}

/// A run over the calendar attempts one day after another, each the day
/// before the last: its attempt after `n` others is made on the day `n` days
/// before its first, under that day's label. A run that found its source on
/// a day begins the day before it; one that found it on none begins on a day
/// from which a walk may set out, the one that the clock read.
pub proof fn lemma_run_walks_back_daily<P: Fn(&ProbeRequest) -> ProbeOutcome>(
    start: ReleasesCommand,
    end: ReleasesCommand,
    probe: P,
    max_attempts: nat,
    max_samples: nat,
    trials: Seq<Trial>,
    path: Seq<ReleasesCommand>,
    n: int,
)
    requires
        run_made(start, end, probe, max_attempts, max_samples, trials, path),
        0 <= n < trials.len(),
    ensures
        path[1].cursor() matches Some(first) && trials[n].step == date_label(first - n),
        start.cursor() matches Some(day) ==> path[1].cursor() == Some(day - 1),
        start.cursor() is None ==> first_step(path[1].cursor().unwrap()) == path[1].cursor(),
{
    let labels = Seq::new(trials.len(), |i: int| trials[i].step);
    assert forall|i: int| 0 <= i < labels.len() implies (#[trigger] path[i]).steps_to(
        Some(labels[i]),
        &path[i + 1],
    ) by {
        assert(attempt_at(probe, trials, path, i));
    }
    lemma_walk_steps_back_daily(path, labels, n);
    assert(path[0].steps_to(Some(labels[0]), &path[1]));
}

} // verus!
