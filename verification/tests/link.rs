use flow_controller::backoff::generate_delay;
use flow_controller::link::{UPLINK_INTERVAL_SECS, MAX_JOIN_RETRIES};
use flow_controller::{Link, LinkAction, LinkEvent, LinkPhase, LorawanKeys};

fn keys(b: u8) -> LorawanKeys {
    LorawanKeys { deveui: [b; 8], appeui: [b; 8], appkey: [b; 16] }
}

#[test]
fn join_backoff_poll_and_rejoin() {
    let mut l = Link::new();
    assert_eq!(l.phase, LinkPhase::WaitingForKeys);
    // Nothing happens before keys arrive.
    assert_eq!(l.step(LinkEvent::JoinSucceeded), LinkAction::Ignore);
    assert_eq!(l.step(LinkEvent::IntervalElapsed), LinkAction::Ignore);

    assert_eq!(l.step(LinkEvent::KeysArrived(keys(1))), LinkAction::Join);
    assert_eq!(l.keys, Some(keys(1)));
    // Two failed joins: retries count 0, 1 and the delays follow.
    assert_eq!(l.step(LinkEvent::JoinFailed(1)), LinkAction::Sleep(generate_delay(1, 0)));
    assert_eq!(l.step(LinkEvent::JoinFailed(1)), LinkAction::Ignore); // still backing off
    assert_eq!(l.retries, 1);
    assert_eq!(l.step(LinkEvent::SleepDone), LinkAction::Join);
    assert_eq!(l.step(LinkEvent::JoinFailed(5)), LinkAction::Sleep(generate_delay(5, 1)));
    assert_eq!(generate_delay(5, 1), 20 + 5 % 5);
    assert_eq!(l.step(LinkEvent::SleepDone), LinkAction::Join);
    assert_eq!(l.step(LinkEvent::JoinSucceeded), LinkAction::RunCycle);
    assert_eq!(l.phase, LinkPhase::Polling);
    assert_eq!(l.step(LinkEvent::CycleDone), LinkAction::WaitIntervalOrKeys(300));
    assert_eq!(UPLINK_INTERVAL_SECS, 300);
    assert_eq!(l.step(LinkEvent::IntervalElapsed), LinkAction::RunCycle);
    assert_eq!(l.step(LinkEvent::CycleDone), LinkAction::WaitIntervalOrKeys(300));

    // New keys: rejoin from zero retries.
    assert_eq!(l.step(LinkEvent::KeysArrived(keys(2))), LinkAction::Join);
    assert_eq!((l.phase, l.retries, l.keys.clone()), (LinkPhase::Joining, 0, Some(keys(2))));
    assert_eq!(l.step(LinkEvent::JoinFailed(0)), LinkAction::Sleep(10));
}

#[test]
fn retries_stop_counting_at_the_cap() {
    let mut l = Link { keys: Some(keys(3)), phase: LinkPhase::Joining, retries: MAX_JOIN_RETRIES };
    assert_eq!(l.step(LinkEvent::JoinFailed(0)), LinkAction::Sleep(3600));
    assert_eq!(l.retries, MAX_JOIN_RETRIES);
    let mut l = Link { keys: Some(keys(3)), phase: LinkPhase::Joining, retries: u16::MAX };
    assert_eq!(l.step(LinkEvent::JoinFailed(720)), LinkAction::Sleep(4320));
    assert_eq!(l.retries, MAX_JOIN_RETRIES);
}
