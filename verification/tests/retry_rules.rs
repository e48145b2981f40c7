//! Transport retry policy.

use modio_provider::retry::{parse_retry_after, retry_decision, RetryAction};

#[test]
fn test_retry_after_header_parsing() {
    assert_eq!(parse_retry_after("30"), Some(30));
    assert_eq!(parse_retry_after("0"), Some(0));
    assert_eq!(parse_retry_after("18446744073709551615"), Some(u64::MAX));
    assert_eq!(parse_retry_after("18446744073709551616"), None);
    assert_eq!(parse_retry_after(""), None);
    assert_eq!(parse_retry_after("30s"), None);
    assert_eq!(parse_retry_after("-1"), None);
}

#[test]
fn test_retry_decision() {
    assert_eq!(
        retry_decision(Some(30)),
        RetryAction::RetryAfter { seconds: 30 }
    );
    assert_eq!(retry_decision(None), RetryAction::Finish);
}
