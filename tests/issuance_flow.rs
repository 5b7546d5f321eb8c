use remote_ssl_renewal::acme::OrderStatus;
use remote_ssl_renewal::error::RenewError;
use remote_ssl_renewal::issuance::{Action, Event, Issuance};

fn feed(mut m: Issuance, events: Vec<Event>) -> (Issuance, Vec<Action>) {
    let mut actions = Vec::new();
    for e in events {
        let (next, a) = m.step(e);
        m = next;
        actions.push(a);
    }
    (m, actions)
}

fn removals(actions: &[Action]) -> usize {
    actions.iter().filter(|a| matches!(a, Action::RemoveRecord { .. })).count()
}

fn status(s: OrderStatus) -> Event {
    Event::Status { status: s, detail: "detail".to_string() }
}

fn published() -> Event {
    Event::Published { handle: "rec-1".to_string() }
}

#[test]
fn start_with_no_challenges_goes_to_finalize() {
    let (_, a) = Issuance::start(0);
    assert!(matches!(a, Action::Finalize));
}

#[test]
fn start_asks_for_the_first_record() {
    let (_, a) = Issuance::start(1);
    assert!(matches!(a, Action::AddRecord { challenge: 0 }));
}

#[test]
fn successful_order_removes_record_once_and_finalizes() {
    let (m, _) = Issuance::start(1);
    let events = vec![
        published(),
        Event::Looked { found: true },
        Event::Slept,
        Event::Acknowledged,
        status(OrderStatus::Pending),
        status(OrderStatus::Ready),
        Event::Acknowledged,
        Event::Issued { chain: "CHAIN".to_string() },
    ];
    let (m, actions) = feed(m, events);
    assert!(m.is_done());
    assert!(matches!(actions[0], Action::LookUp { challenge: 0, after_ms: 0 }));
    assert!(matches!(actions[1], Action::Sleep { millis: 15_000 }));
    assert!(matches!(actions[2], Action::SetReady { challenge: 0 }));
    assert!(matches!(actions[3], Action::CheckOrder { after_ms: 250 }));
    assert!(matches!(actions[4], Action::CheckOrder { after_ms: 500 }));
    match &actions[5] {
        Action::RemoveRecord { handle } => assert_eq!(handle, "rec-1"),
        other => panic!("unexpected {:?}", other),
    }
    assert!(matches!(actions[6], Action::Finalize));
    match &actions[7] {
        Action::Finish { result: Ok(chain) } => assert_eq!(chain, "CHAIN"),
        other => panic!("unexpected {:?}", other),
    }
    assert_eq!(removals(&actions), 1);
}

#[test]
fn invalid_order_is_rejected_and_never_finalized() {
    let (m, _) = Issuance::start(1);
    let events = vec![
        published(),
        Event::Looked { found: true },
        Event::Slept,
        Event::Acknowledged,
        Event::Status { status: OrderStatus::Invalid, detail: "bad TXT".to_string() },
        Event::Acknowledged,
        Event::Issued { chain: "CHAIN".to_string() },
    ];
    let (m, actions) = feed(m, events);
    assert!(m.is_done());
    assert!(!actions.iter().any(|a| matches!(a, Action::Finalize)));
    assert_eq!(removals(&actions), 1);
    match &actions[5] {
        Action::Finish { result: Err(RenewError::ChallengeRejected(d)) } => assert_eq!(d, "bad TXT"),
        other => panic!("unexpected {:?}", other),
    }
    assert!(matches!(actions[6], Action::Idle));
}

#[test]
fn pending_order_times_out_after_ten_checks() {
    let (m, _) = Issuance::start(1);
    let mut events = vec![published(), Event::Looked { found: true }, Event::Slept, Event::Acknowledged];
    for _ in 0..10 {
        events.push(status(OrderStatus::Pending));
    }
    events.push(Event::Acknowledged);
    let (m, actions) = feed(m, events);
    assert!(m.is_done());
    let waits: Vec<u64> = actions
        .iter()
        .filter_map(|a| match a {
            Action::CheckOrder { after_ms } => Some(*after_ms),
            _ => None,
        })
        .collect();
    assert_eq!(
        waits,
        vec![250, 500, 1000, 2000, 4000, 8000, 16000, 32000, 60000, 60000]
    );
    assert_eq!(waits.iter().sum::<u64>(), 183_750);
    assert_eq!(removals(&actions), 1);
    assert!(matches!(
        actions.last().unwrap(),
        Action::Finish { result: Err(RenewError::ChallengeTimeout) }
    ));
}

#[test]
fn transport_errors_while_polling_count_against_the_cap() {
    let (m, _) = Issuance::start(1);
    let mut events = vec![published(), Event::Looked { found: true }, Event::Slept, Event::Acknowledged];
    for _ in 0..5 {
        events.push(Event::Failed { detail: "503".to_string() });
        events.push(status(OrderStatus::Processing));
    }
    let (_, actions) = feed(m, events);
    assert!(matches!(actions.last().unwrap(), Action::RemoveRecord { .. }));
}

#[test]
fn record_that_never_appears_times_out_and_is_removed() {
    let (m, _) = Issuance::start(1);
    let mut events = vec![published()];
    for _ in 0..14 {
        events.push(Event::Looked { found: false });
    }
    let (m, actions) = feed(m, events);
    let lookups: Vec<u64> = actions
        .iter()
        .filter_map(|a| match a {
            Action::LookUp { after_ms, .. } => Some(*after_ms),
            _ => None,
        })
        .collect();
    assert_eq!(&lookups[..7], &[0, 2000, 4000, 8000, 16000, 32000, 60000]);
    assert_eq!(lookups.iter().sum::<u64>(), 542_000);
    assert!(matches!(actions.last().unwrap(), Action::RemoveRecord { .. }));
    assert_eq!(removals(&actions), 1);
    let (m, a) = m.step(Event::Acknowledged);
    assert!(m.is_done());
    assert!(matches!(a, Action::Finish { result: Err(RenewError::DnsPropagationTimeout) }));
}

#[test]
fn failed_publication_needs_no_cleanup() {
    let (m, _) = Issuance::start(1);
    let (m, a) = m.step(Event::Failed { detail: "403".to_string() });
    assert!(m.is_done());
    match a {
        Action::Finish { result: Err(RenewError::DnsProviderError(d)) } => assert_eq!(d, "403"),
        other => panic!("unexpected {:?}", other),
    }
}

#[test]
fn cleanup_failure_does_not_mask_earlier_error() {
    let (m, _) = Issuance::start(1);
    let events = vec![
        published(),
        Event::Looked { found: true },
        Event::Slept,
        Event::Failed { detail: "ready refused".to_string() },
        Event::Failed { detail: "delete refused".to_string() },
    ];
    let (_, actions) = feed(m, events);
    assert_eq!(removals(&actions), 1);
    match actions.last().unwrap() {
        Action::Finish { result: Err(RenewError::ProtocolError(d)) } => assert_eq!(d, "ready refused"),
        other => panic!("unexpected {:?}", other),
    }
}

#[test]
fn cleanup_failure_after_success_is_reported() {
    let (m, _) = Issuance::start(1);
    let events = vec![
        published(),
        Event::Looked { found: true },
        Event::Slept,
        Event::Acknowledged,
        status(OrderStatus::Ready),
        Event::Failed { detail: "delete refused".to_string() },
    ];
    let (_, actions) = feed(m, events);
    assert!(!actions.iter().any(|a| matches!(a, Action::Finalize)));
    assert!(matches!(
        actions.last().unwrap(),
        Action::Finish { result: Err(RenewError::CleanupFailed(_)) }
    ));
}

#[test]
fn two_challenges_are_handled_one_after_another() {
    let (m, _) = Issuance::start(2);
    let one = |h: &str| {
        vec![
            Event::Published { handle: h.to_string() },
            Event::Looked { found: true },
            Event::Slept,
            Event::Acknowledged,
            status(OrderStatus::Ready),
            Event::Acknowledged,
        ]
    };
    let mut events = one("r1");
    events.extend(one("r2"));
    let (_, actions) = feed(m, events);
    assert!(matches!(actions[5], Action::AddRecord { challenge: 1 }));
    assert!(matches!(actions[11], Action::Finalize));
    assert_eq!(removals(&actions), 2);
}

#[test]
fn finalize_failure_is_a_protocol_error() {
    let (m, _) = Issuance::start(0);
    let (_, a) = m.step(Event::Failed { detail: "finalize".to_string() });
    assert!(matches!(a, Action::Finish { result: Err(RenewError::ProtocolError(_)) }));
}

#[test]
fn out_of_order_event_still_removes_record() {
    let (m, _) = Issuance::start(1);
    let (m, _) = m.step(published());
    let (m, a) = m.step(Event::Issued { chain: "x".to_string() });
    assert!(matches!(a, Action::RemoveRecord { .. }));
    let (_, a) = m.step(Event::Acknowledged);
    assert!(matches!(a, Action::Finish { result: Err(RenewError::OutOfOrder) }));
}
