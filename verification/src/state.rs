//! Valve state machine: how a received downlink maps to an action, and how
//! the two tracked states evolve. No I/O.

use crate::codec::{decode_downlink, spec_decode_downlink};
use crate::types::ValveState;
use vstd::prelude::*;

verus! {

/// The two states the device tracks.
///
/// `current` is what the device believes the valve physically is;
/// `last_commanded` is the most recent backend command. They match under a
/// stub actuator; a real driver can make them diverge on a failed actuation.
#[derive(Debug, Clone, Copy, PartialEq, Eq, Structural)]
pub struct ClientState {
    pub current: ValveState,
    pub last_commanded: ValveState,
}

impl ClientState {
    /// Hydrate from a single known state (e.g. the value read from flash on
    /// boot); `last_commanded` starts equal to it.
    pub fn new(current: ValveState) -> (s: Self)
        ensures
            s.current == current,
            s.last_commanded == current,
    {
        ClientState { current, last_commanded: current }
    }
}

/// What the caller should do about a received downlink.
#[derive(Debug, Clone, Copy, PartialEq, Eq, Structural)]
pub enum DownlinkOutcome {
    /// Payload did not parse as a `Downlink`.
    Undecodable,
    /// Desired state already matches `current`: nothing to do (idempotent).
    Unchanged,
    /// Command was `Unknown`, which the backend must never send: ignored.
    Ignored,
    /// Caller must actuate to this state, then call [`on_actuated`] and
    /// persist.
    Transition(ValveState),
}

/// The decision for a command `desired` while the valve is in `current`.
pub open spec fn spec_outcome(desired: ValveState, current: ValveState) -> DownlinkOutcome {
    if desired == ValveState::Unknown {
        DownlinkOutcome::Ignored
    } else if desired == current {
        DownlinkOutcome::Unchanged
    } else {
        DownlinkOutcome::Transition(desired)
    }
}

/// What a downlink payload does to the tracked states and which outcome it
/// reports: an undecodable payload changes nothing; a decodable one is
/// recorded as the last command (before actuation) and never touches
/// `current`.
pub open spec fn spec_on_downlink(payload: Seq<u8>, state: ClientState) -> (
    ClientState,
    DownlinkOutcome,
) {
    match spec_decode_downlink(payload) {
        None => (state, DownlinkOutcome::Undecodable),
        Some(desired) => (
            ClientState { last_commanded: desired, ..state },
            spec_outcome(desired, state.current),
        ),
    }
}

/// Decode a downlink and decide what to do. Updates `last_commanded` on any
/// decodable command (before actuation); never touches `current`.
pub fn on_downlink(payload: &[u8], state: &mut ClientState) -> (r: DownlinkOutcome)
    ensures
        (*final(state), r) == spec_on_downlink(payload@, *old(state)),
{
    let desired = match decode_downlink(payload) {
        Ok(v) => v,
        Err(_) => {
            return DownlinkOutcome::Undecodable;
        },
    };
    // Record the command on receipt, before actuation.
    state.last_commanded = desired;
    match desired {
        ValveState::Unknown => DownlinkOutcome::Ignored,
        _ => {
            if desired == state.current {
                DownlinkOutcome::Unchanged
            } else {
                DownlinkOutcome::Transition(desired)
            }
        },
    }
}

/// Confirm a successful actuation: `current` now matches the commanded
/// state.
pub fn on_actuated(state: &mut ClientState, target: ValveState)
    ensures
        *final(state) == (ClientState { current: target, ..*old(state) }),
{
    state.current = target;
}

/// A transition is only ever asked for towards `Open` or `Closed`, only away
/// from the current state, and towards the command just recorded; the
/// current state is left for [`on_actuated`] to change.
pub proof fn lemma_transition_targets(payload: Seq<u8>, state: ClientState)
    ensures
        ({
            let (next, outcome) = spec_on_downlink(payload, state);
            outcome matches DownlinkOutcome::Transition(t) ==> {
                &&& t != ValveState::Unknown
                &&& t != state.current
                &&& next.last_commanded == t
                &&& next.current == state.current
            }
        }),
{
}

/// A command equal to the current state asks for no actuation, and receiving
/// it a second time changes nothing further (idempotence).
pub proof fn lemma_repeat_command_idempotent(payload: Seq<u8>, state: ClientState)
    requires
        spec_decode_downlink(payload) == Some(state.current),
    ensures
        ({
            let (next, outcome) = spec_on_downlink(payload, state);
            &&& outcome != DownlinkOutcome::Transition(state.current)
            &&& !(outcome is Transition)
            &&& next.current == state.current
            &&& spec_on_downlink(payload, next) == (next, outcome)
        }),
{
}

/// Receiving a downlink never changes `current`.
pub proof fn lemma_downlink_keeps_current(payload: Seq<u8>, state: ClientState)
    ensures
        spec_on_downlink(payload, state).0.current == state.current,
{
}

/// Every decodable downlink is recorded as the last command, whatever the
/// current state, and leaves `current` alone; an undecodable one changes
/// nothing.
pub proof fn lemma_command_recorded(payload: Seq<u8>, state: ClientState)
    ensures
        spec_decode_downlink(payload) matches Some(d) ==> spec_on_downlink(payload, state).0
            == (ClientState { current: state.current, last_commanded: d }),
        spec_decode_downlink(payload) is None ==> spec_on_downlink(payload, state) == (
            state,
            DownlinkOutcome::Undecodable,
        ),
{
}

/// The outcome of a downlink: undecodable payloads are reported as such; an
/// `Unknown` command is ignored; a command equal to the current state needs
/// nothing; any other command asks for a transition to it.
pub proof fn lemma_outcome_by_command(payload: Seq<u8>, state: ClientState)
    ensures
        ({
            let outcome = spec_on_downlink(payload, state).1;
            let d = spec_decode_downlink(payload);
            &&& outcome == DownlinkOutcome::Undecodable <==> d is None
            &&& outcome == DownlinkOutcome::Ignored <==> d == Some(ValveState::Unknown)
            &&& outcome == DownlinkOutcome::Unchanged <==> (d == Some(state.current)
                && state.current != ValveState::Unknown)
            &&& outcome is Transition <==> (d is Some && d != Some(ValveState::Unknown) && d
                != Some(state.current))
            &&& outcome is Transition ==> d == Some(outcome->Transition_0)
        }),
{
}

} // verus!
