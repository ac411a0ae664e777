use ghcrawl::transport::{classify, reset_wait, retry_delay, ApiResult};

const NOW: u64 = 1_700_000_000;

#[test]
fn primary_limit_waits_for_reset_plus_margin() {
    let first = classify(false, "{\"message\":\"API rate limit exceeded\"}", Some(NOW + 5), NOW);
    assert_eq!(first, ApiResult::RateLimit(6));
    assert_eq!(retry_delay(first), Some(6));
    let second = classify(true, "{\"items\":[]}", None, NOW + 6);
    assert_eq!(second, ApiResult::Success);
    assert_eq!(retry_delay(second), None);
}

#[test]
fn secondary_limit_waits_sixty_seconds() {
    let body = "{\"message\":\"You have exceeded a secondary rate limit.\"}";
    let r = classify(false, body, Some(NOW + 500), NOW);
    assert_eq!(r, ApiResult::SecondaryLimit);
    assert_eq!(retry_delay(r), Some(60));
    assert_eq!(retry_delay(classify(false, body, None, NOW)), Some(60));
}

#[test]
fn success_ignores_body_and_header() {
    assert_eq!(classify(true, "secondary", Some(NOW + 5), NOW), ApiResult::Success);
}

#[test]
fn missing_or_past_reset_waits_one_second() {
    assert_eq!(classify(false, "", None, NOW), ApiResult::RateLimit(1));
    assert_eq!(classify(false, "", Some(NOW - 30), NOW), ApiResult::RateLimit(1));
    assert_eq!(reset_wait(Some(NOW), NOW), 1);
}

#[test]
fn reset_wait_saturates() {
    assert_eq!(reset_wait(Some(u64::MAX), 0), u64::MAX);
    assert_eq!(reset_wait(Some(100), 40), 61);
}
