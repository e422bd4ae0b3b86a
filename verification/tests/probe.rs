use cdn_bench::probe::{
    classify, inspect_head, measure, measure_between, starts_with, status_is_success, Exchange,
    FailureReason, HeaderLookup, Moment, ProbeOutcome, Response,
};

fn text(value: &str) -> HeaderLookup {
    HeaderLookup::Text(value.to_string())
}

fn at(seconds: i64, nanoseconds: u32) -> Moment {
    Moment { seconds, nanoseconds }
}

/// A response whose download began at some moment and ended `elapsed_seconds` later.
fn answered(status: u16, cache_header: HeaderLookup, body_bytes: usize, elapsed_seconds: i64) -> Exchange {
    let started = at(1_700_000_000, 250_000_000);
    let finished = at(1_700_000_000 + elapsed_seconds, 250_000_000);
    Exchange::Answered(Response { status, cache_header, body_bytes, started, finished })
}

#[test]
fn ten_megabytes_in_ten_seconds_is_a_thousand() {
    assert_eq!(measure(10_000_000, 10), ProbeOutcome::Measured(1000));
}

#[test]
fn rate_is_cut_to_a_whole_number() {
    assert_eq!(measure(1_999, 1), ProbeOutcome::Measured(1));
    assert_eq!(measure(999, 1), ProbeOutcome::Measured(0));
    assert_eq!(measure(10_000_000, 3), ProbeOutcome::Measured(3333));
    assert_eq!(measure(2_500_000, 2), ProbeOutcome::Measured(1250));
    assert_eq!(measure(123_456_789, 7), ProbeOutcome::Measured(17636));
}

#[test]
fn empty_body_has_rate_zero() {
    assert_eq!(measure(0, 5), ProbeOutcome::Measured(0));
}

#[test]
fn zero_seconds_is_degenerate_timing() {
    assert_eq!(measure(10_000_000, 0), ProbeOutcome::Failed(FailureReason::DegenerateTiming));
    assert_eq!(measure(0, 0), ProbeOutcome::Failed(FailureReason::DegenerateTiming));
}

#[test]
fn negative_seconds_measure_as_zero() {
    assert_eq!(measure(10_000_000, -1), ProbeOutcome::Measured(0));
    assert_eq!(measure(10_000_000, i64::MIN), ProbeOutcome::Measured(0));
}

#[test]
fn largest_inputs_do_not_overflow() {
    assert_eq!(measure(usize::MAX, 1), ProbeOutcome::Measured(usize::MAX / 1000));
    assert_eq!(measure(usize::MAX, i64::MAX), ProbeOutcome::Measured(usize::MAX / 1000 / (i64::MAX as usize)));
}

#[test]
fn hit_with_suffix_is_a_cache_hit() {
    let verdict = inspect_head(200, &text("HIT, cached"), Some("x-cache"), Some("HIT"));
    assert_eq!(verdict, Some(ProbeOutcome::CacheHit));
    let exchange = answered(200, text("HIT, cached"), 10_000_000, 10);
    assert_eq!(classify(&exchange, Some("x-cache"), Some("HIT")), ProbeOutcome::CacheHit);
}

#[test]
fn exact_marker_is_a_cache_hit() {
    assert_eq!(
        inspect_head(200, &text("Hit"), Some("x-cache"), Some("Hit")),
        Some(ProbeOutcome::CacheHit)
    );
}

#[test]
fn marker_is_matched_case_sensitively() {
    assert_eq!(inspect_head(200, &text("Hit from cloudfront"), Some("x-cache"), Some("HIT")), None);
    assert_eq!(inspect_head(200, &text("hit"), Some("x-cache"), Some("HIT")), None);
}

#[test]
fn marker_is_matched_at_the_start_only() {
    assert_eq!(inspect_head(200, &text("MISS, HIT"), Some("x-cache"), Some("HIT")), None);
    assert_eq!(inspect_head(200, &text(" HIT"), Some("x-cache"), Some("HIT")), None);
    assert_eq!(inspect_head(200, &text("HI"), Some("x-cache"), Some("HIT")), None);
    assert_eq!(inspect_head(200, &text(""), Some("x-cache"), Some("HIT")), None);
}

#[test]
fn miss_goes_on_to_the_rate() {
    let exchange = answered(200, text("MISS"), 10_000_000, 10);
    assert_eq!(classify(&exchange, Some("x-cache"), Some("HIT")), ProbeOutcome::Measured(1000));
}

#[test]
fn status_500_fails_whatever_the_headers() {
    let failed = ProbeOutcome::Failed(FailureReason::Status(500));
    assert_eq!(inspect_head(500, &text("HIT, cached"), Some("x-cache"), Some("HIT")), Some(failed));
    assert_eq!(inspect_head(500, &text("MISS"), Some("x-cache"), Some("HIT")), Some(failed));
    assert_eq!(inspect_head(500, &HeaderLookup::Missing, Some("x-cache"), Some("HIT")), Some(failed));
    assert_eq!(inspect_head(500, &HeaderLookup::Unreadable, Some("x-cache"), Some("HIT")), Some(failed));
    assert_eq!(inspect_head(500, &HeaderLookup::Missing, None, None), Some(failed));
}

#[test]
fn status_500_forms_no_rate() {
    let exchange = answered(500, text("MISS"), 10_000_000, 10);
    assert_eq!(classify(&exchange, Some("x-cache"), Some("HIT")), ProbeOutcome::Failed(FailureReason::Status(500)));
    assert_eq!(classify(&exchange, None, None), ProbeOutcome::Failed(FailureReason::Status(500)));
    let timeless = answered(500, text("MISS"), 10_000_000, 0);
    assert_eq!(classify(&timeless, None, None), ProbeOutcome::Failed(FailureReason::Status(500)));
}

#[test]
fn success_class_is_200_to_299() {
    assert!(!status_is_success(0));
    assert!(!status_is_success(199));
    assert!(status_is_success(200));
    assert!(status_is_success(204));
    assert!(status_is_success(299));
    assert!(!status_is_success(300));
    assert!(!status_is_success(404));
    assert!(!status_is_success(u16::MAX));
    assert_eq!(inspect_head(199, &HeaderLookup::Missing, None, None), Some(ProbeOutcome::Failed(FailureReason::Status(199))));
    assert_eq!(inspect_head(299, &HeaderLookup::Missing, None, None), None);
    assert_eq!(inspect_head(300, &HeaderLookup::Missing, None, None), Some(ProbeOutcome::Failed(FailureReason::Status(300))));
}

#[test]
fn missing_header_fails_where_the_check_is_asked_for() {
    assert_eq!(
        inspect_head(200, &HeaderLookup::Missing, Some("x-cache"), Some("HIT")),
        Some(ProbeOutcome::Failed(FailureReason::MissingCacheHeader))
    );
    let exchange = answered(200, HeaderLookup::Missing, 10_000_000, 10);
    assert_eq!(
        classify(&exchange, Some("x-cache"), Some("Hit")),
        ProbeOutcome::Failed(FailureReason::MissingCacheHeader)
    );
}

#[test]
fn unreadable_header_fails_where_the_check_is_asked_for() {
    assert_eq!(
        inspect_head(200, &HeaderLookup::Unreadable, Some("x-cache"), Some("HIT")),
        Some(ProbeOutcome::Failed(FailureReason::MalformedCacheHeader))
    );
}

#[test]
fn no_check_without_both_header_and_marker() {
    assert_eq!(inspect_head(200, &HeaderLookup::Missing, None, None), None);
    assert_eq!(inspect_head(200, &HeaderLookup::Missing, Some("x-cache"), None), None);
    assert_eq!(inspect_head(200, &HeaderLookup::Missing, None, Some("HIT")), None);
    assert_eq!(inspect_head(200, &HeaderLookup::Unreadable, None, None), None);
    assert_eq!(inspect_head(200, &text("HIT"), None, None), None);
    assert_eq!(inspect_head(200, &text("HIT"), Some("x-cache"), None), None);
    let exchange = answered(200, text("HIT"), 4_000_000, 2);
    assert_eq!(classify(&exchange, None, None), ProbeOutcome::Measured(2000));
}

#[test]
fn unanswered_request_is_a_transport_failure() {
    assert_eq!(
        classify(&Exchange::Unanswered, Some("x-cache"), Some("HIT")),
        ProbeOutcome::Failed(FailureReason::Transport)
    );
}

#[test]
fn timed_out_request_is_a_timeout() {
    assert_eq!(classify(&Exchange::TimedOut, None, None), ProbeOutcome::Failed(FailureReason::Timeout));
}

#[test]
fn degenerate_timing_after_a_good_head() {
    let exchange = answered(200, text("MISS"), 10_000_000, 0);
    assert_eq!(
        classify(&exchange, Some("x-cache"), Some("HIT")),
        ProbeOutcome::Failed(FailureReason::DegenerateTiming)
    );
}

#[test]
fn cache_hit_is_told_apart_from_failure() {
    let hit = classify(&answered(200, text("HIT"), 1, 1), Some("x-cache"), Some("HIT"));
    assert!(matches!(hit, ProbeOutcome::CacheHit));
    assert!(!matches!(hit, ProbeOutcome::Failed(_)));
}

#[test]
fn starts_with_compares_characters() {
    assert!(starts_with("HIT, cached", "HIT"));
    assert!(starts_with("HIT", "HIT"));
    assert!(starts_with("HIT", ""));
    assert!(starts_with("", ""));
    assert!(!starts_with("", "H"));
    assert!(!starts_with("HI", "HIT"));
    assert!(!starts_with("hIT", "HIT"));
    assert!(!starts_with("HIt", "HIT"));
    assert!(starts_with("héllo wörld", "héllo"));
    assert!(!starts_with("héllo", "hello"));
    assert!(!starts_with("e\u{301}", "\u{e9}"));
}

#[test]
fn ten_megabytes_between_moments_ten_seconds_apart() {
    assert_eq!(measure_between(10_000_000, at(0, 0), at(10, 0)), ProbeOutcome::Measured(1000));
    assert_eq!(
        measure_between(10_000_000, at(1_700_000_000, 123_456_789), at(1_700_000_010, 123_456_789)),
        ProbeOutcome::Measured(1000)
    );
    let exchange = answered(200, HeaderLookup::Missing, 10_000_000, 10);
    assert_eq!(classify(&exchange, None, None), ProbeOutcome::Measured(1000));
}

#[test]
fn only_whole_seconds_count() {
    assert_eq!(measure_between(6_000, at(0, 500_000_000), at(2, 499_999_999)), ProbeOutcome::Measured(6));
    assert_eq!(measure_between(6_000, at(0, 500_000_000), at(2, 500_000_000)), ProbeOutcome::Measured(3));
    assert_eq!(measure_between(6_000, at(-3, 0), at(0, 0)), ProbeOutcome::Measured(2));
}

#[test]
fn less_than_a_second_is_degenerate_timing() {
    let degenerate = ProbeOutcome::Failed(FailureReason::DegenerateTiming);
    assert_eq!(measure_between(10_000_000, at(5, 0), at(5, 0)), degenerate);
    assert_eq!(measure_between(10_000_000, at(5, 0), at(5, 999_999_999)), degenerate);
    assert_eq!(measure_between(10_000_000, at(5, 999_999_999), at(6, 0)), degenerate);
    assert_eq!(measure_between(10_000_000, at(5, 1), at(6, 0)), degenerate);
    assert_eq!(measure_between(10_000_000, at(10, 0), at(9, 500_000_000)), degenerate);
}

#[test]
fn clock_that_ran_backwards_measures_as_zero() {
    assert_eq!(measure_between(10_000_000, at(10, 0), at(8, 500_000_000)), ProbeOutcome::Measured(0));
    assert_eq!(measure_between(10_000_000, at(10, 0), at(9, 0)), ProbeOutcome::Measured(0));
    let exchange = answered(200, HeaderLookup::Missing, 10_000_000, -4);
    assert_eq!(classify(&exchange, None, None), ProbeOutcome::Measured(0));
}

#[test]
fn moments_outside_the_calendar_give_no_rate() {
    let degenerate = ProbeOutcome::Failed(FailureReason::DegenerateTiming);
    assert_eq!(measure_between(10_000_000, at(0, 0), at(i64::MAX, 0)), degenerate);
    assert_eq!(measure_between(10_000_000, at(i64::MIN, 0), at(0, 0)), degenerate);
    assert_eq!(measure_between(10_000_000, at(0, 2_000_000_000), at(10, 0)), degenerate);
    assert_eq!(measure_between(10_000_000, at(0, 0), at(10, u32::MAX)), degenerate);
}

#[test]
fn elapsed_time_is_what_chrono_counts() {
    let cases = [
        (at(0, 0), at(86_400, 0)),
        (at(1_700_000_000, 999_999_999), at(1_700_000_123, 0)),
        (at(-1_000, 1), at(1_000, 0)),
        (at(4_102_444_800, 0), at(0, 0)),
    ];
    for (started, finished) in cases {
        let from = chrono::DateTime::from_timestamp(started.seconds, started.nanoseconds).unwrap();
        let to = chrono::DateTime::from_timestamp(finished.seconds, finished.nanoseconds).unwrap();
        let elapsed = (to - from).num_seconds();
        assert_eq!(measure_between(123_456_789, started, finished), measure(123_456_789, elapsed));
    }
}

#[test]
fn downloads_are_allowed_ten_minutes() {
    assert_eq!(cdn_bench::probe::DOWNLOAD_TIMEOUT_SECONDS, 10 * 60);
}
