use quote_miner::schedule::{
    next_sleep, quota_wait, search_step, RateLimitState, SearchReply, SearchStep, SLEEP_CAP_MS,
};
use quote_miner::text::{decimal, output_file_name, search_query};

#[test]
fn exhausted_quota_waits_for_reset() {
    let now_ms: u64 = 1_600_000_000_000;
    let reset = (now_ms / 1000 + 5) as i32;
    let state = RateLimitState { limit: 180, remaining: 0, reset };
    assert_eq!(quota_wait(&state), Some(reset));
    let step = next_sleep(reset, now_ms, false).unwrap();
    assert_eq!(step, 10_000);
    assert!(step <= SLEEP_CAP_MS);
    // After the step the reset has passed: no more waiting.
    assert_eq!(next_sleep(reset, now_ms + step, false), None);
}

#[test]
fn quota_left_means_no_wait() {
    let state = RateLimitState { limit: 180, remaining: 1, reset: 100 };
    assert_eq!(quota_wait(&state), None);
}

#[test]
fn sleep_steps_are_padded_and_capped() {
    assert_eq!(next_sleep(10, 9_000, false), Some(6_000));
    assert_eq!(next_sleep(10, 4_000, false), Some(10_000));
    assert_eq!(next_sleep(10, 10_000, false), None);
    assert_eq!(next_sleep(10, 11_000, false), None);
    assert_eq!(next_sleep(10, 4_000, true), None);
    assert_eq!(next_sleep(-3, 0, false), None);
}

#[test]
fn search_retries_on_rate_limit_only() {
    assert!(matches!(search_step(false, None), SearchStep::Call));
    match search_step(true, None) {
        SearchStep::Finish(ids) => assert!(ids.is_empty()),
        _ => panic!("cancelled search must finish empty"),
    }
    assert!(matches!(search_step(false, Some(SearchReply::RateLimited(42))), SearchStep::WaitUntil(42)));
    assert!(matches!(search_step(false, Some(SearchReply::Failed)), SearchStep::Abort));
    match search_step(true, Some(SearchReply::Quoters(vec![8, 9]))) {
        SearchStep::Finish(ids) => assert_eq!(ids, vec![8, 9]),
        _ => panic!("a reply with quoters finishes"),
    }
}

#[test]
fn decimal_digits() {
    assert_eq!(decimal(0), "0");
    assert_eq!(decimal(7), "7");
    assert_eq!(decimal(1234567890), "1234567890");
    assert_eq!(decimal(u64::MAX), "18446744073709551615");
}

#[test]
fn query_is_the_tweet_url() {
    assert_eq!(search_query("jack", 20), "https://twitter.com/jack/status/20");
}

#[test]
fn output_name_joins_seeds_and_time() {
    assert_eq!(output_file_name(&vec![100, 200], 1_600_000_000), "100 200 1600000000.dot");
    assert_eq!(output_file_name(&vec![5], 1), "5 1.dot");
}
