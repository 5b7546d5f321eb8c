use remote_ssl_renewal::error::RenewError;
use remote_ssl_renewal::renewal::{
    decide_single, failed_subdomains, renewal_threshold, renewal_threshold_at, select_due,
    JobReport, RenewDecision, SubdomainRecord, RENEWAL_WINDOW_SECS,
};

const NOW: i64 = 1_700_000_000;
const DAY: i64 = 86_400;

fn row(name: &str, enabled: bool, expires: Option<i64>) -> SubdomainRecord {
    SubdomainRecord { name: name.to_string(), enabled, expires }
}

#[test]
fn threshold_is_fourteen_days_ahead() {
    assert_eq!(RENEWAL_WINDOW_SECS, 1_209_600);
    assert_eq!(renewal_threshold_at(NOW), NOW + 14 * DAY);
    assert_eq!(renewal_threshold_at(i64::MAX - 5), i64::MAX);
}

#[test]
fn threshold_from_the_clock() {
    let (now, threshold) = renewal_threshold();
    assert!(now > 1_600_000_000);
    assert_eq!(threshold, now + RENEWAL_WINDOW_SECS);
}

#[test]
fn batch_selects_only_due_subdomains() {
    let threshold = renewal_threshold_at(NOW);
    let rows = vec![
        row("far.example.com", true, Some(NOW + 30 * DAY)),
        row("near.example.com", true, Some(NOW + 3 * DAY)),
        row("never.example.com", true, None),
        row("off.example.com", false, Some(NOW)),
        row("edge.example.com", true, Some(threshold)),
        row("expired.example.com", true, Some(NOW - DAY)),
    ];
    assert_eq!(select_due(&rows, threshold), vec![1, 2, 5]);
}

#[test]
fn batch_with_nothing_due_selects_nothing() {
    let threshold = renewal_threshold_at(NOW);
    let rows = vec![row("far.example.com", true, Some(NOW + 30 * DAY))];
    assert!(select_due(&rows, threshold).is_empty());
    assert!(select_due(&vec![], threshold).is_empty());
}

#[test]
fn single_target_decisions() {
    let threshold = renewal_threshold_at(NOW);
    assert_eq!(decide_single(Some(NOW + 30 * DAY), threshold, false), RenewDecision::NotDue);
    assert_eq!(decide_single(Some(NOW + 30 * DAY), threshold, true), RenewDecision::Renew);
    assert_eq!(decide_single(Some(NOW + DAY), threshold, false), RenewDecision::Renew);
    assert_eq!(decide_single(None, threshold, false), RenewDecision::Renew);
    assert_eq!(decide_single(Some(threshold), threshold, false), RenewDecision::NotDue);
}

#[test]
fn failed_jobs_are_all_reported() {
    let reports = vec![
        JobReport { subdomain: "a".to_string(), result: Ok(()) },
        JobReport { subdomain: "b".to_string(), result: Err(RenewError::ChallengeTimeout) },
        JobReport { subdomain: "c".to_string(), result: Err(RenewError::EndpointNotFound) },
    ];
    assert_eq!(failed_subdomains(&reports), vec!["b".to_string(), "c".to_string()]);
    let fine = vec![JobReport { subdomain: "a".to_string(), result: Ok(()) }];
    assert!(failed_subdomains(&fine).is_empty());
}
