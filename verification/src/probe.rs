//! Judging one download: was it served from an edge cache, did it fail, or
//! how fast did it arrive.
//!
//! Nothing here touches the network. A caller performs the request and hands
//! over what it observed; the functions below decide what that observation
//! means. Time between two readings of the clock is counted by `chrono`.

use vstd::prelude::*;
use vstd::string::*;

verus! {

/// Why a download could not be used.
#[derive(Clone, Copy, Debug, PartialEq, Eq, Structural)]
pub enum FailureReason {
    /// No response arrived: the connection failed.
    Transport,
    /// The time allowed for the whole download ran out.
    Timeout,
    /// The response carried this status, which is not a success status.
    Status(u16),
    /// The header that tells a cache hit was expected and is absent.
    MissingCacheHeader,
    /// The header that tells a cache hit is present, but its value is not text.
    MalformedCacheHeader,
    /// No whole second elapsed, or none that can be counted, so that no rate
    /// can be formed.
    DegenerateTiming,
}

/// What one download attempt came to.
#[derive(Clone, Copy, Debug, PartialEq, Eq, Structural)]
pub enum ProbeOutcome {
    /// The body arrived; the payload is the rate in whole kilobytes per second.
    Measured(usize),
    /// The edge answered from its cache. No rate is formed for such a download.
    CacheHit,
    /// The download is unusable.
    Failed(FailureReason),
}

/// One download to carry out.
#[derive(Clone, Debug, PartialEq, Eq)]
pub struct ProbeRequest {
    /// The address to fetch.
    pub url: String,
    /// The header that tells a cache hit, where the provider has one.
    pub cache_hit_header: Option<&'static str>,
    /// What that header's value begins with on a cache hit.
    pub cache_hit_value: Option<&'static str>,
}

/// What a response says under the header that tells a cache hit.
#[derive(Clone, Debug, PartialEq, Eq)]
pub enum HeaderLookup {
    /// The response has no such header.
    Missing,
    /// The header is there, but its value is not readable as text.
    Unreadable,
    /// The header's value.
    Text(String),
}

/// A reading of the clock: the time since the Unix epoch, in UTC.
#[derive(Clone, Copy, Debug, PartialEq, Eq, Structural)]
pub struct Moment {
    /// Whole seconds since the epoch.
    pub seconds: i64,
    /// Nanoseconds since the last whole second.
    pub nanoseconds: u32,
}

/// What a caller observed of a response that did arrive.
#[derive(Clone, Debug, PartialEq, Eq)]
pub struct Response {
    /// The HTTP status code.
    pub status: u16,
    /// What the response holds under the header that tells a cache hit.
    pub cache_header: HeaderLookup,
    /// Number of bytes in the body.
    pub body_bytes: usize,
    /// The clock just before the request was issued.
    pub started: Moment,
    /// The clock just after the last byte of the body arrived.
    pub finished: Moment,
}

/// How a request ended.
#[derive(Clone, Debug, PartialEq, Eq)]
pub enum Exchange {
    /// The connection failed before any response arrived.
    Unanswered,
    /// The time allowed for the download ran out.
    TimedOut,
    /// A response arrived.
    Answered(Response),
}

/// The seconds allowed for a whole download, from the request to the last
/// byte of the body. A download that takes longer is a [`FailureReason::Timeout`].
pub const DOWNLOAD_TIMEOUT_SECONDS: u64 = 600;

/// The success class of HTTP status codes.
pub open spec fn is_success(status: u16) -> bool {
    200 <= status < 300
}

/// The prefix that marks a cache hit, if the caller asks for the check: it
/// does so by naming both the header and the prefix.
pub open spec fn cache_check(header: Option<&str>, value: Option<&str>) -> Option<Seq<char>> {
    match (header, value) {
        (Some(_), Some(prefix)) => Some(prefix@),
        _ => None,
    }
}

/// What status and headers alone decide, or `None` where the body has to be
/// read and timed.
///
/// A status outside the success class fails the download whatever the headers
/// say. Where the check is asked for, the header must be present and readable,
/// and a value that begins with the prefix is a cache hit.
pub open spec fn head_verdict(
    status: u16,
    cache_header: HeaderLookup,
    check: Option<Seq<char>>,
) -> Option<ProbeOutcome> {
    if !is_success(status) {
        Some(ProbeOutcome::Failed(FailureReason::Status(status)))
    } else {
        match check {
            None => None,
            Some(prefix) => match cache_header {
                HeaderLookup::Missing => Some(
                    ProbeOutcome::Failed(FailureReason::MissingCacheHeader),
                ),
                HeaderLookup::Unreadable => Some(
                    ProbeOutcome::Failed(FailureReason::MalformedCacheHeader),
                ),
                HeaderLookup::Text(value) => if prefix.is_prefix_of(value@) {
                    Some(ProbeOutcome::CacheHit)
                } else {
                    None
                },
            },
        }
    }
}

/// The rate of a download of `body_bytes` bytes that took `elapsed_seconds`
/// whole seconds: bytes over a thousand over seconds, cut to a whole number.
///
/// No rate exists for zero seconds. A clock that ran backwards gives a
/// negative time, and the rate is then cut to zero.
pub open spec fn throughput(body_bytes: int, elapsed_seconds: int) -> ProbeOutcome {
    if elapsed_seconds == 0 {
        ProbeOutcome::Failed(FailureReason::DegenerateTiming)
    } else if elapsed_seconds < 0 {
        ProbeOutcome::Measured(0)
    } else {
        ProbeOutcome::Measured((body_bytes / 1000 / elapsed_seconds) as usize)
    }
}

/// The whole seconds that `chrono` counts from one moment to another, each
/// given by its seconds and nanoseconds, or `None` where `chrono` does not
/// hold both moments.
pub uninterp spec fn chrono_whole_seconds(
    start_seconds: int,
    start_nanoseconds: int,
    end_seconds: int,
    end_nanoseconds: int,
) -> Option<int>;

/// The whole seconds from `started` to `finished`.
pub open spec fn whole_seconds(started: Moment, finished: Moment) -> Option<int> {
    chrono_whole_seconds(
        started.seconds as int,
        started.nanoseconds as int,
        finished.seconds as int,
        finished.nanoseconds as int,
    )
}

/// The rate of a download of `body_bytes` bytes that ran from `started` to
/// `finished`. Moments between which no time can be counted give no rate.
pub open spec fn timed_throughput(body_bytes: int, started: Moment, finished: Moment) -> ProbeOutcome {
    match whole_seconds(started, finished) {
        Some(elapsed_seconds) => throughput(body_bytes, elapsed_seconds),
        None => ProbeOutcome::Failed(FailureReason::DegenerateTiming),
    }
}

/// The outcome of a response: what its head decides, else its rate.
pub open spec fn response_outcome(response: Response, check: Option<Seq<char>>) -> ProbeOutcome {
    match head_verdict(response.status, response.cache_header, check) {
        Some(outcome) => outcome,
        None => timed_throughput(response.body_bytes as int, response.started, response.finished),
    }
}

/// The outcome of a request, however it ended.
pub open spec fn exchange_outcome(exchange: Exchange, check: Option<Seq<char>>) -> ProbeOutcome {
    match exchange {
        Exchange::Unanswered => ProbeOutcome::Failed(FailureReason::Transport),
        Exchange::TimedOut => ProbeOutcome::Failed(FailureReason::Timeout),
        Exchange::Answered(response) => response_outcome(response, check),
    }
}

/// Tells whether `value` begins with `prefix`, character for character.
pub fn starts_with(value: &str, prefix: &str) -> (hit: bool)
    ensures
        hit == prefix@.is_prefix_of(value@),
{
    let wanted = prefix.unicode_len();
    if wanted > value.unicode_len() {
        return false;
    }
    let mut at: usize = 0;
    while at < wanted
        invariant
            at <= wanted,
            wanted == prefix@.len(),
            wanted <= value@.len(),
            forall|k: int| 0 <= k < at ==> prefix@[k] == value@[k],
        decreases wanted - at,
    {
        if prefix.get_char(at) != value.get_char(at) {
            assert(value@.subrange(0, wanted as int)[at as int] != prefix@[at as int]);
            return false;
        }
        at += 1;
    }
    assert(prefix@ =~= value@.subrange(0, wanted as int));
    true
}

/// Tells whether `status` is in the success class.
pub fn status_is_success(status: u16) -> (ok: bool)
    ensures
        ok == is_success(status),
{
    200 <= status && status < 300
}

/// Judges a response by status and headers, before its body is read.
///
/// `Some` ends the probe with that outcome. `None` asks for the body to be
/// read and timed, and then for [`measure_between`].
pub fn inspect_head(
    status: u16,
    cache_header: &HeaderLookup,
    cache_hit_header: Option<&str>,
    cache_hit_value: Option<&str>,
) -> (verdict: Option<ProbeOutcome>)
    ensures
        verdict == head_verdict(
            status,
            *cache_header,
            cache_check(cache_hit_header, cache_hit_value),
        ),
{
    if !status_is_success(status) {
        return Some(ProbeOutcome::Failed(FailureReason::Status(status)));
    }
    match (cache_hit_header, cache_hit_value) {
        (Some(_), Some(prefix)) => match cache_header {
            HeaderLookup::Missing => Some(ProbeOutcome::Failed(FailureReason::MissingCacheHeader)),
            HeaderLookup::Unreadable => Some(
                ProbeOutcome::Failed(FailureReason::MalformedCacheHeader),
            ),
            HeaderLookup::Text(value) => {
                if starts_with(value.as_str(), prefix) {
                    Some(ProbeOutcome::CacheHit)
                } else {
                    None
                }
            },
        },
        _ => None,
    }
}

/// Forms the rate of a completed download.
pub fn measure(body_bytes: usize, elapsed_seconds: i64) -> (outcome: ProbeOutcome)
    ensures
        outcome == throughput(body_bytes as int, elapsed_seconds as int),
{
    if elapsed_seconds == 0 {
        ProbeOutcome::Failed(FailureReason::DegenerateTiming)
    } else if elapsed_seconds < 0 {
        ProbeOutcome::Measured(0)
    } else {
        let kilobytes: u64 = body_bytes as u64 / 1000;
        let rate: u64 = kilobytes / (elapsed_seconds as u64);
        ProbeOutcome::Measured(rate as usize)
    }
}

/// Counts the whole seconds from `started` to `finished` with `chrono`: each
/// moment is read by `DateTime::from_timestamp`, the two are subtracted, and
/// `TimeDelta::num_seconds` is taken of the difference.
///
/// Trusted: the result is the one that [`chrono_whole_seconds`] names, that
/// is, it depends on the four numbers and on nothing else.
#[verifier::external_body]
fn elapsed_seconds(started: Moment, finished: Moment) -> (elapsed: Option<i64>)
    ensures
        match elapsed {
            Some(seconds) => chrono_whole_seconds(
                started.seconds as int,
                started.nanoseconds as int,
                finished.seconds as int,
                finished.nanoseconds as int,
            ) == Some(seconds as int),
            None => chrono_whole_seconds(
                started.seconds as int,
                started.nanoseconds as int,
                finished.seconds as int,
                finished.nanoseconds as int,
            ) is None,
        },
{
    let started = chrono::DateTime::from_timestamp(started.seconds, started.nanoseconds)?;
    let finished = chrono::DateTime::from_timestamp(finished.seconds, finished.nanoseconds)?;
    Some((finished - started).num_seconds())
}

/// Forms the rate of a download that ran from `started` to `finished`.
pub fn measure_between(body_bytes: usize, started: Moment, finished: Moment) -> (outcome:
    ProbeOutcome)
    ensures
        outcome == timed_throughput(body_bytes as int, started, finished),
{
    match elapsed_seconds(started, finished) {
        Some(seconds) => measure(body_bytes, seconds),
        None => ProbeOutcome::Failed(FailureReason::DegenerateTiming),
    }
}

/// Judges a request that has run its course.
///
/// The check for a cache hit is made only where `cache_hit_header` and
/// `cache_hit_value` are both given.
pub fn classify(
    exchange: &Exchange,
    cache_hit_header: Option<&str>,
    cache_hit_value: Option<&str>,
) -> (outcome: ProbeOutcome)
    ensures
        outcome == exchange_outcome(*exchange, cache_check(cache_hit_header, cache_hit_value)),
{
    match exchange {
        Exchange::Unanswered => ProbeOutcome::Failed(FailureReason::Transport),
        Exchange::TimedOut => ProbeOutcome::Failed(FailureReason::Timeout),
        Exchange::Answered(response) => {
            match inspect_head(
                response.status,
                &response.cache_header,
                cache_hit_header,
                cache_hit_value,
            ) {
                Some(outcome) => outcome,
                None => measure_between(response.body_bytes, response.started, response.finished),
            }
        },
    }
}

/// A response whose status is outside the success class is a failure
/// whatever its headers hold and whatever check is asked for, and no rate is
/// formed for it.
pub proof fn lemma_bad_status_fails(response: Response, check: Option<Seq<char>>)
    requires
        !is_success(response.status),
    ensures
        head_verdict(response.status, response.cache_header, check) == Some(
            ProbeOutcome::Failed(FailureReason::Status(response.status)),
        ),
        response_outcome(response, check) == ProbeOutcome::Failed(
            FailureReason::Status(response.status),
        ),
{
}

/// A successful response whose header value begins with the marker is a
/// cache hit, whatever follows the marker in the value, and no rate is formed
/// for it.
pub proof fn lemma_marked_response_is_cache_hit(
    response: Response,
    marker: Seq<char>,
    rest: Seq<char>,
)
    requires
        is_success(response.status),
        response.cache_header matches HeaderLookup::Text(value) && value@ == marker + rest,
    ensures
        response_outcome(response, Some(marker)) == ProbeOutcome::CacheHit,
{
    assert((marker + rest).subrange(0, marker.len() as int) =~= marker);
}

} // verus!
