use flow_controller::{on_actuated, on_downlink, ClientState, DownlinkOutcome, ValveState};

#[test]
fn open_from_unknown_transitions_and_records_command() {
    let mut s = ClientState::new(ValveState::Unknown);
    assert_eq!(on_downlink(&[0x08, 0x01], &mut s), DownlinkOutcome::Transition(ValveState::Open));
    assert_eq!(s.last_commanded, ValveState::Open); // recorded on receipt
    assert_eq!(s.current, ValveState::Unknown); // not until on_actuated
    on_actuated(&mut s, ValveState::Open);
    assert_eq!(s.current, ValveState::Open);
}

#[test]
fn repeat_command_is_idempotent() {
    let mut s = ClientState::new(ValveState::Open);
    assert_eq!(on_downlink(&[0x08, 0x01], &mut s), DownlinkOutcome::Unchanged);
}

#[test]
fn unknown_command_is_ignored() {
    let mut s = ClientState::new(ValveState::Open);
    assert_eq!(on_downlink(&[0x08, 0x03], &mut s), DownlinkOutcome::Ignored);
}

#[test]
fn garbage_is_undecodable_and_leaves_command_untouched() {
    let mut s = ClientState::new(ValveState::Open);
    s.last_commanded = ValveState::Open;
    assert_eq!(on_downlink(&[0x08], &mut s), DownlinkOutcome::Undecodable);
    assert_eq!(s.last_commanded, ValveState::Open); // unchanged
}

#[test]
fn close_from_open_transitions() {
    let mut s = ClientState::new(ValveState::Open);
    assert_eq!(on_downlink(&[0x08, 0x02], &mut s), DownlinkOutcome::Transition(ValveState::Closed));
    assert_eq!(s, ClientState { current: ValveState::Open, last_commanded: ValveState::Closed });
    // Sending the command again before it was actuated asks again.
    assert_eq!(on_downlink(&[0x08, 0x02], &mut s), DownlinkOutcome::Transition(ValveState::Closed));
    on_actuated(&mut s, ValveState::Closed);
    assert_eq!(on_downlink(&[0x08, 0x02], &mut s), DownlinkOutcome::Unchanged);
}

#[test]
fn empty_downlink_is_an_ignored_unspecified_command() {
    let mut s = ClientState::new(ValveState::Closed);
    assert_eq!(on_downlink(&[], &mut s), DownlinkOutcome::Ignored);
    // Recorded as the last command even so.
    assert_eq!(s.last_commanded, ValveState::Unknown);
    assert_eq!(s.current, ValveState::Closed);
}
