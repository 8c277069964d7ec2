use app_queue::job::{judge_failure, next_retry_at, retry_delay, Failure, Job, MAX_RETRY_SECS};
use app_queue::time::{Timestamp, MAX_SECS, MIN_SECS};

struct Plain;

impl Job for Plain {}

struct Picky;

impl Job for Picky {
    fn is_fatal_error(&self, error: &anyhow::Error) -> bool {
        error.to_string() == "fatal"
    }

    fn get_next_retry(&self, retries: i64) -> Option<Timestamp> {
        if retries < 3 {
            Some(Timestamp { secs: 1_000 + retries, nanos: 7 })
        } else {
            None
        }
    }
}

fn now_secs() -> i64 {
    chrono::Utc::now().timestamp()
}

#[test]
fn the_delay_doubles_up_to_ten_minutes() {
    let delays: Vec<i64> = (0..13).map(retry_delay).collect();
    assert_eq!(delays, vec![1, 2, 4, 8, 16, 32, 64, 128, 256, 512, 600, 600, 600]);
    assert_eq!(retry_delay(i64::MAX), 600);
    assert_eq!(MAX_RETRY_SECS, 600);
}

#[test]
fn the_next_retry_adds_the_delay() {
    let now = Timestamp { secs: 1_700_000_000, nanos: 250 };
    assert_eq!(next_retry_at(now, 0), Some(Timestamp { secs: 1_700_000_001, nanos: 250 }));
    assert_eq!(next_retry_at(now, 5), Some(Timestamp { secs: 1_700_000_032, nanos: 250 }));
    assert_eq!(next_retry_at(now, 50), Some(Timestamp { secs: 1_700_000_600, nanos: 250 }));
}

#[test]
fn the_next_retry_crosses_midnight_and_the_epoch() {
    let now = Timestamp { secs: -10, nanos: 999_999_999 };
    assert_eq!(next_retry_at(now, 4), Some(Timestamp { secs: 6, nanos: 999_999_999 }));
    let evening = Timestamp { secs: 86_399, nanos: 0 };
    assert_eq!(next_retry_at(evening, 1), Some(Timestamp { secs: 86_401, nanos: 0 }));
}

#[test]
fn there_is_no_retry_after_the_end_of_the_calendar() {
    let now = Timestamp { secs: MAX_SECS - 8, nanos: 1 };
    assert_eq!(next_retry_at(now, 3), Some(Timestamp { secs: MAX_SECS, nanos: 1 }));
    assert_eq!(next_retry_at(now, 4), None);
    let start = Timestamp { secs: MIN_SECS, nanos: 0 };
    assert_eq!(next_retry_at(start, 0), Some(Timestamp { secs: MIN_SECS + 1, nanos: 0 }));
}

#[test]
fn by_default_no_error_is_fatal() {
    assert!(!Plain.is_fatal_error(&anyhow::Error::msg("fatal")));
    assert!(Picky.is_fatal_error(&anyhow::Error::msg("fatal")));
}

#[test]
fn by_default_the_retry_counts_from_the_current_time() {
    let before = now_secs();
    let at = Plain.get_next_retry(6).unwrap();
    let after = now_secs();
    assert!(before + 64 <= at.secs && at.secs <= after + 64);
    assert!(at.nanos < 1_000_000_000);
}

#[test]
fn a_fatal_error_ends_a_job() {
    assert_eq!(judge_failure(&Picky, &anyhow::Error::msg("fatal"), 0), Failure::Fatal);
}

#[test]
fn another_error_asks_for_the_next_retry() {
    assert_eq!(
        judge_failure(&Picky, &anyhow::Error::msg("busy"), 2),
        Failure::Retry(Timestamp { secs: 1_002, nanos: 7 })
    );
    assert_eq!(judge_failure(&Picky, &anyhow::Error::msg("busy"), 3), Failure::NoRetryTime);
}

#[test]
fn a_plain_job_is_always_retried() {
    let before = now_secs();
    let failure = judge_failure(&Plain, &anyhow::Error::msg("fatal"), 100);
    let after = now_secs();
    match failure {
        Failure::Retry(at) => assert!(before + 600 <= at.secs && at.secs <= after + 600),
        _ => panic!("expected a retry"),
    }
}
