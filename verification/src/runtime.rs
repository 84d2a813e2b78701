//! The body of one Class-A cycle as a sans-IO state machine: send the
//! current state, then drain and apply every downlink received in the RX
//! window. The caller owns the radio, the actuator and the flash; it performs
//! each [`Action`] that [`Iteration::step`] returns and reports back with the
//! matching [`Event`].

use crate::codec::{encode_uplink, spec_uplink_wire, UPLINK_BUF_LEN};
use crate::state::{on_actuated, on_downlink, spec_on_downlink, ClientState, DownlinkOutcome};
use crate::types::ValveState;
use vstd::prelude::*;

verus! {

/// Uplink fport. Downlinks piggyback in the RX windows this uplink opens.
pub const FPORT: u8 = 1;

/// A network operation (join/send) failed.
#[derive(Debug, Clone, Copy, PartialEq, Eq, Structural)]
pub struct NetError;

/// Where one cycle stands.
#[derive(Debug, Clone, Copy, PartialEq, Eq, Structural)]
pub enum Phase {
    /// Not started: waiting for [`Event::Begin`].
    Idle,
    /// The uplink is being sent.
    Sending,
    /// Asking the network for the next buffered downlink.
    Draining,
    /// The valve is being driven to this state.
    Actuating(ValveState),
    /// The new state is being written to flash.
    Persisting,
    /// The cycle is over.
    Done,
}

/// What the caller reports back.
#[derive(Debug)]
pub enum Event<'a> {
    /// Start the cycle.
    Begin,
    /// The uplink was sent, or sending failed.
    Sent(Result<(), NetError>),
    /// The next buffered downlink payload, or `None` when no more are queued.
    Downlink(Option<&'a [u8]>),
    /// The valve finished moving.
    Actuated,
    /// The record was written.
    Persisted,
}

/// What the caller must do next.
#[derive(Debug, Clone, Copy, PartialEq, Eq)]
pub enum Action {
    /// Send the first `.1` bytes of `.0` on fport `.2`, then report [`Event::Sent`].
    SendUplink([u8; UPLINK_BUF_LEN], usize, u8),
    /// Fetch the next downlink, then report [`Event::Downlink`].
    PollDownlink,
    /// Open the valve, then report [`Event::Actuated`].
    Open,
    /// Close the valve, then report [`Event::Actuated`].
    Close,
    /// Persist the keys with this valve state, then report [`Event::Persisted`].
    Persist(ValveState),
    /// The cycle is over; this is its result.
    Finish(Result<(), NetError>),
    /// The event does not belong to the current phase and was ignored.
    Wait,
}

/// One Class-A cycle over the tracked client state.
#[derive(Debug, Clone, Copy)]
pub struct Iteration {
    pub client: ClientState,
    pub phase: Phase,
}

/// Abstract form of an [`Action`], with the uplink given by its bytes.
pub enum Step {
    Send(Seq<u8>, u8),
    Poll,
    Open,
    Close,
    Persist(ValveState),
    Finish(Result<(), NetError>),
    Wait,
}

/// The [`Step`] an action stands for.
pub open spec fn action_step(a: Action) -> Step {
    match a {
        Action::SendUplink(buf, n, port) => Step::Send(buf@.take(n as int), port),
        Action::PollDownlink => Step::Poll,
        Action::Open => Step::Open,
        Action::Close => Step::Close,
        Action::Persist(s) => Step::Persist(s),
        Action::Finish(r) => Step::Finish(r),
        Action::Wait => Step::Wait,
    }
}

/// What to do after deciding on a downlink: move the valve for a transition
/// to `Open` or `Closed`, and otherwise ask for the next downlink.
pub open spec fn after_downlink(outcome: DownlinkOutcome) -> (Phase, Step) {
    match outcome {
        DownlinkOutcome::Transition(ValveState::Open) => (
            Phase::Actuating(ValveState::Open),
            Step::Open,
        ),
        DownlinkOutcome::Transition(ValveState::Closed) => (
            Phase::Actuating(ValveState::Closed),
            Step::Close,
        ),
        _ => (Phase::Draining, Step::Poll),
    }
}

/// The cycle's transition function: next client state, next phase and the
/// step to take, for an event in a phase.
pub open spec fn spec_step(client: ClientState, phase: Phase, event: Event) -> (
    ClientState,
    Phase,
    Step,
) {
    match (phase, event) {
        (Phase::Idle, Event::Begin) => (
            client,
            Phase::Sending,
            Step::Send(spec_uplink_wire(client.current, client.last_commanded), FPORT),
        ),
        (Phase::Sending, Event::Sent(Err(e))) => (client, Phase::Done, Step::Finish(Err(e))),
        (Phase::Sending, Event::Sent(Ok(()))) => (client, Phase::Draining, Step::Poll),
        (Phase::Draining, Event::Downlink(None)) => (client, Phase::Done, Step::Finish(Ok(()))),
        (Phase::Draining, Event::Downlink(Some(payload))) => {
            let (next, outcome) = spec_on_downlink(payload@, client);
            let (phase2, step) = after_downlink(outcome);
            (next, phase2, step)
        },
        (Phase::Actuating(target), Event::Actuated) => (
            ClientState { current: target, ..client },
            Phase::Persisting,
            Step::Persist(target),
        ),
        (Phase::Persisting, Event::Persisted) => (client, Phase::Draining, Step::Poll),
        _ => (client, phase, Step::Wait),
    }
}

/// The invariant of a cycle: the valve is only ever driven to `Open` or
/// `Closed`, towards the last command, and what is being persisted is the
/// commanded state that was just reached.
pub open spec fn phase_wf(client: ClientState, phase: Phase) -> bool {
    match phase {
        Phase::Actuating(t) => t != ValveState::Unknown && client.last_commanded == t,
        Phase::Persisting => client.current == client.last_commanded,
        _ => true,
    }
}

impl Iteration {
    /// A cycle that has not started yet.
    pub fn new(client: ClientState) -> (it: Self)
        ensures
            it.client == client,
            it.phase == Phase::Idle,
    {
        Iteration { client, phase: Phase::Idle }
    }

    /// Advances the cycle by one event and returns what to do next.
    pub fn step(&mut self, event: Event) -> (a: Action)
        ensures
            (final(self).client, final(self).phase, action_step(a)) == spec_step(
                old(self).client,
                old(self).phase,
                event,
            ),
            a matches Action::SendUplink(_, n, _) ==> n <= UPLINK_BUF_LEN,
    {
        match (self.phase, event) {
            (Phase::Idle, Event::Begin) => {
                let (buf, n) = encode_uplink(self.client.current, self.client.last_commanded);
                self.phase = Phase::Sending;
                Action::SendUplink(buf, n, FPORT)
            },
            (Phase::Sending, Event::Sent(Err(e))) => {
                self.phase = Phase::Done;
                Action::Finish(Err(e))
            },
            (Phase::Sending, Event::Sent(Ok(()))) => {
                self.phase = Phase::Draining;
                Action::PollDownlink
            },
            (Phase::Draining, Event::Downlink(None)) => {
                self.phase = Phase::Done;
                Action::Finish(Ok(()))
            },
            (Phase::Draining, Event::Downlink(Some(payload))) => {
                match on_downlink(payload, &mut self.client) {
                    DownlinkOutcome::Transition(ValveState::Open) => {
                        self.phase = Phase::Actuating(ValveState::Open);
                        Action::Open
                    },
                    DownlinkOutcome::Transition(ValveState::Closed) => {
                        self.phase = Phase::Actuating(ValveState::Closed);
                        Action::Close
                    },
                    // `Transition(Unknown)` is never produced by `on_downlink`;
                    // the other outcomes need no action.
                    _ => {
                        self.phase = Phase::Draining;
                        Action::PollDownlink
                    },
                }
            },
            (Phase::Actuating(target), Event::Actuated) => {
                on_actuated(&mut self.client, target);
                self.phase = Phase::Persisting;
                Action::Persist(self.client.current)
            },
            (Phase::Persisting, Event::Persisted) => {
                self.phase = Phase::Draining;
                Action::PollDownlink
            },
            _ => Action::Wait,
        }
    }
}

/// Every step keeps the cycle invariant: a cycle never drives the valve to
/// `Unknown`, and each actuation is followed by persisting exactly the state
/// reached, which is then both current and last commanded.
pub proof fn lemma_step_keeps_wf(client: ClientState, phase: Phase, event: Event)
    requires
        phase_wf(client, phase),
    ensures
        ({
            let (next, phase2, step) = spec_step(client, phase, event);
            &&& phase_wf(next, phase2)
            &&& step matches Step::Persist(s) ==> s == next.current && s == next.last_commanded
            &&& (step is Open || step is Close) ==> phase2 is Actuating
        }),
{
}

/// A new cycle satisfies the invariant.
pub proof fn lemma_new_wf(client: ClientState)
    ensures
        phase_wf(client, Phase::Idle),
{
}

/// While draining, a downlink that asks for no actuation (undecodable,
/// ignored, or equal to the current state) leaves the cycle draining and
/// asks for the next downlink; a decodable command that differs from the
/// current state drives the valve towards it.
pub proof fn lemma_draining_continues(client: ClientState, payload: &[u8])
    ensures
        ({
            let (next, phase, step) = spec_step(client, Phase::Draining, Event::Downlink(Some(payload)));
            let d = crate::codec::spec_decode_downlink(payload@);
            &&& (d is None || d == Some(client.current) || d == Some(ValveState::Unknown)) ==> (
            phase == Phase::Draining && step is Poll)
            &&& d == Some(ValveState::Open) && client.current != ValveState::Open ==> (phase
                == Phase::Actuating(ValveState::Open) && step is Open)
            &&& d == Some(ValveState::Closed) && client.current != ValveState::Closed ==> (
            phase == Phase::Actuating(ValveState::Closed) && step is Close)
        }),
{
}

/// A cycle ends successfully only when the RX window is empty: a
/// `Finish(Ok)` step comes only from `Draining` on `Downlink(None)`, and a
/// failed send is the only other way to end.
pub proof fn lemma_finish_only_when_drained(client: ClientState, phase: Phase, event: Event)
    ensures
        ({
            let (next, phase2, step) = spec_step(client, phase, event);
            &&& step == Step::Finish(Ok(())) ==> (phase == Phase::Draining
                && event is Downlink && event->Downlink_0 is None)
            &&& (step is Finish && step->Finish_0 is Err) ==> (phase == Phase::Sending
                && event is Sent && event->Sent_0 is Err)
            &&& phase2 == Phase::Done && phase != Phase::Done ==> step is Finish
        }),
{
}

/// The uplink sent at the start of a cycle, decoded as an `Uplink`, reports
/// the wire value of the current state as `current_state` and that of the
/// last command as `last_commanded_state`, on fport 1.
pub proof fn lemma_uplink_reports_state(client: ClientState)
    ensures
        ({
            let (next, phase, step) = spec_step(client, Phase::Idle, Event::Begin);
            step matches Step::Send(bytes, port) && port == 1 && crate::proto::uplink_merge(
                bytes,
                bytes.len() as int,
                0,
                0,
            ) == (
                Ok::<(), crate::wire::WireError>(()),
                crate::types::spec_to_proto(client.current),
                crate::types::spec_to_proto(client.last_commanded),
            )
        }),
{
    crate::proto::lemma_uplink_round_trip(
        crate::types::spec_to_proto(client.current),
        crate::types::spec_to_proto(client.last_commanded),
    );
}

} // verus!
