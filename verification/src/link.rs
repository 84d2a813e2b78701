//! The LoRaWAN link as a sans-IO state machine: wait for keys, join over
//! OTAA with a jittered backoff until the network accepts, then run one
//! Class-A cycle every five minutes; new keys at any point mean a clean
//! rejoin. The caller owns the radio, the timer and the key signal; it
//! performs each [`LinkAction`] that [`Link::step`] returns and reports back
//! with the matching [`LinkEvent`].

use crate::backoff::{base_delay, generate_delay, lemma_delay_bounds, spec_delay};
use crate::types::LorawanKeys;
use vstd::prelude::*;

verus! {

/// Class-A poll cadence: one cycle every five minutes.
pub const UPLINK_INTERVAL_SECS: u64 = 300;

/// The retry count at which the join backoff stops counting. The base delay
/// reaches its one-hour cap long before (at 359 retries), so this changes
/// no delay; it keeps the count clear of `u16` overflow.
pub const MAX_JOIN_RETRIES: u16 = 6552;

/// Where the link stands.
#[derive(Debug, Clone, Copy, PartialEq, Eq, Structural)]
pub enum LinkPhase {
    /// No keys yet: waiting for BLE provisioning (or the boot flash read).
    WaitingForKeys,
    /// An OTAA join is under way.
    Joining,
    /// A join failed; waiting before the next attempt.
    Backoff,
    /// Joined; a Class-A cycle is under way.
    Polling,
    /// Joined; waiting for the next poll or for new keys.
    Waiting,
}

/// The link's state: the keys it joins with, its phase, and the number of
/// failed join attempts since the last keys arrived.
#[derive(Debug, Clone)]
pub struct Link {
    pub keys: Option<LorawanKeys>,
    pub phase: LinkPhase,
    pub retries: u16,
}

/// What the caller reports back.
#[derive(Debug, Clone)]
pub enum LinkEvent {
    /// New keys were provisioned (or read from flash at boot).
    KeysArrived(LorawanKeys),
    /// The network accepted the join.
    JoinSucceeded,
    /// The join failed; the word is a fresh draw from the radio's RNG.
    JoinFailed(u32),
    /// The backoff sleep is over.
    SleepDone,
    /// The Class-A cycle finished (whatever its result).
    CycleDone,
    /// The poll interval elapsed without new keys.
    IntervalElapsed,
}

/// What the caller must do next.
#[derive(Debug, Clone, Copy, PartialEq, Eq, Structural)]
pub enum LinkAction {
    /// Wait for keys, then report [`LinkEvent::KeysArrived`].
    WaitForKeys,
    /// Join over OTAA with [`Link::keys`], then report the result.
    Join,
    /// Sleep this many seconds, then report [`LinkEvent::SleepDone`].
    Sleep(u16),
    /// Run one Class-A cycle, then report [`LinkEvent::CycleDone`].
    RunCycle,
    /// Wait this many seconds or for new keys, whichever comes first, and
    /// report [`LinkEvent::IntervalElapsed`] or [`LinkEvent::KeysArrived`].
    WaitIntervalOrKeys(u64),
    /// The event does not belong to the current phase and was ignored.
    Ignore,
}

/// The retry count that the delay is computed from.
pub open spec fn capped_retries(retries: u16) -> u16 {
    if retries < MAX_JOIN_RETRIES {
        retries
    } else {
        MAX_JOIN_RETRIES
    }
}

/// The retry count after one more failed join.
pub open spec fn next_retries(retries: u16) -> u16 {
    if retries < MAX_JOIN_RETRIES {
        (retries + 1) as u16
    } else {
        MAX_JOIN_RETRIES
    }
}

/// The link's transition function.
pub open spec fn spec_link_step(l: Link, e: LinkEvent) -> (Link, LinkAction) {
    match (l.phase, e) {
        (_, LinkEvent::KeysArrived(k)) => (
            Link { keys: Some(k), phase: LinkPhase::Joining, retries: 0 },
            LinkAction::Join,
        ),
        (LinkPhase::Joining, LinkEvent::JoinFailed(r)) => (
            Link { phase: LinkPhase::Backoff, retries: next_retries(l.retries), ..l },
            LinkAction::Sleep(spec_delay(r, capped_retries(l.retries)) as u16),
        ),
        (LinkPhase::Backoff, LinkEvent::SleepDone) => (
            Link { phase: LinkPhase::Joining, ..l },
            LinkAction::Join,
        ),
        (LinkPhase::Joining, LinkEvent::JoinSucceeded) => (
            Link { phase: LinkPhase::Polling, ..l },
            LinkAction::RunCycle,
        ),
        (LinkPhase::Polling, LinkEvent::CycleDone) => (
            Link { phase: LinkPhase::Waiting, ..l },
            LinkAction::WaitIntervalOrKeys(UPLINK_INTERVAL_SECS),
        ),
        (LinkPhase::Waiting, LinkEvent::IntervalElapsed) => (
            Link { phase: LinkPhase::Polling, ..l },
            LinkAction::RunCycle,
        ),
        _ => (l, LinkAction::Ignore),
    }
}

/// A link that has not seen keys yet.
pub open spec fn initial_link() -> Link {
    Link { keys: None, phase: LinkPhase::WaitingForKeys, retries: 0 }
}

/// The link after a sequence of events.
pub open spec fn spec_link_run(l: Link, events: Seq<LinkEvent>) -> Link
    decreases events.len(),
{
    if events.len() == 0 {
        l
    } else {
        spec_link_step(spec_link_run(l, events.drop_last()), events.last()).0
    }
}

/// The link's invariant: outside `WaitingForKeys` it holds keys, and the
/// retry count stays within its cap.
pub open spec fn link_wf(l: Link) -> bool {
    &&& l.phase != LinkPhase::WaitingForKeys ==> l.keys is Some
    &&& l.retries <= MAX_JOIN_RETRIES
}

impl Link {
    /// A link waiting for its first keys; its first action is
    /// [`LinkAction::WaitForKeys`].
    pub fn new() -> (l: Self)
        ensures
            l == initial_link(),
    {
        Link { keys: None, phase: LinkPhase::WaitingForKeys, retries: 0 }
    }

    /// Advances the link by one event and returns what to do next.
    pub fn step(&mut self, e: LinkEvent) -> (a: LinkAction)
        ensures
            (*final(self), a) == spec_link_step(*old(self), e),
    {
        match e {
            LinkEvent::KeysArrived(k) => {
                self.keys = Some(k);
                self.phase = LinkPhase::Joining;
                self.retries = 0;
                LinkAction::Join
            },
            LinkEvent::JoinFailed(r) => {
                if self.phase == LinkPhase::Joining {
                    let capped = if self.retries < MAX_JOIN_RETRIES {
                        self.retries
                    } else {
                        MAX_JOIN_RETRIES
                    };
                    let delay = generate_delay(r, capped);
                    self.retries = if self.retries < MAX_JOIN_RETRIES {
                        self.retries + 1
                    } else {
                        MAX_JOIN_RETRIES
                    };
                    self.phase = LinkPhase::Backoff;
                    LinkAction::Sleep(delay)
                } else {
                    LinkAction::Ignore
                }
            },
            LinkEvent::SleepDone => {
                if self.phase == LinkPhase::Backoff {
                    self.phase = LinkPhase::Joining;
                    LinkAction::Join
                } else {
                    LinkAction::Ignore
                }
            },
            LinkEvent::JoinSucceeded => {
                if self.phase == LinkPhase::Joining {
                    self.phase = LinkPhase::Polling;
                    LinkAction::RunCycle
                } else {
                    LinkAction::Ignore
                }
            },
            LinkEvent::CycleDone => {
                if self.phase == LinkPhase::Polling {
                    self.phase = LinkPhase::Waiting;
                    LinkAction::WaitIntervalOrKeys(UPLINK_INTERVAL_SECS)
                } else {
                    LinkAction::Ignore
                }
            },
            LinkEvent::IntervalElapsed => {
                if self.phase == LinkPhase::Waiting {
                    self.phase = LinkPhase::Polling;
                    LinkAction::RunCycle
                } else {
                    LinkAction::Ignore
                }
            },
        }
    }
}

/// Whether the link is joined (`Polling` or `Waiting`).
pub open spec fn is_online(p: LinkPhase) -> bool {
    p == LinkPhase::Polling || p == LinkPhase::Waiting
}

/// A cycle runs only in `Polling`, entered from a successful join or from
/// an elapsed poll interval; the link goes online only by a successful join;
/// new keys always restart the join from zero retries.
pub proof fn lemma_cycle_only_after_join(l: Link, e: LinkEvent)
    ensures
        spec_link_step(l, e).1 == LinkAction::RunCycle ==> spec_link_step(l, e).0.phase
            == LinkPhase::Polling,
        spec_link_step(l, e).1 == LinkAction::RunCycle ==> (l.phase == LinkPhase::Joining
            && e is JoinSucceeded) || (l.phase == LinkPhase::Waiting && e is IntervalElapsed),
        is_online(spec_link_step(l, e).0.phase) && !is_online(l.phase) ==> l.phase
            == LinkPhase::Joining && e is JoinSucceeded,
        e is KeysArrived ==> spec_link_step(l, e) == (
            Link { keys: Some(e->KeysArrived_0), phase: LinkPhase::Joining, retries: 0 },
            LinkAction::Join,
        ),
{
}

/// From a fresh link, whenever the link is online (`Polling` or `Waiting`)
/// there was a successful join, made while joining, and no keys arrived
/// after it: every cycle runs on a join made with the latest keys.
pub proof fn lemma_online_only_after_join_with_latest_keys(events: Seq<LinkEvent>)
    ensures
        ({
            let l = spec_link_run(initial_link(), events);
            (l.phase == LinkPhase::Polling || l.phase == LinkPhase::Waiting) ==> exists|i: int|
                0 <= i < events.len() && #[trigger] events[i] is JoinSucceeded && spec_link_run(
                    initial_link(),
                    events.take(i),
                ).phase == LinkPhase::Joining && forall|j: int|
                    i < j < events.len() ==> !(#[trigger] events[j] is KeysArrived)
        }),
    decreases events.len(),
{
    if events.len() > 0 {
        let prev_events = events.drop_last();
        let prev = spec_link_run(initial_link(), prev_events);
        let e = events.last();
        let l = spec_link_run(initial_link(), events);
        lemma_online_only_after_join_with_latest_keys(prev_events);
        if l.phase == LinkPhase::Polling || l.phase == LinkPhase::Waiting {
            if prev.phase == LinkPhase::Joining && e is JoinSucceeded {
                let i = events.len() - 1;
                assert(events.take(i) == prev_events);
                assert(events[i] is JoinSucceeded);
            } else {
                assert(prev.phase == LinkPhase::Polling || prev.phase == LinkPhase::Waiting);
                assert(!(e is KeysArrived));
                let i = choose|i: int|
                    0 <= i < prev_events.len() && #[trigger] prev_events[i] is JoinSucceeded
                        && spec_link_run(initial_link(), prev_events.take(i)).phase
                        == LinkPhase::Joining && forall|j: int|
                        i < j < prev_events.len() ==> !(#[trigger] prev_events[j] is KeysArrived);
                assert(events.take(i) == prev_events.take(i));
                assert(events[i] == prev_events[i]);
                assert forall|j: int| i < j < events.len() implies !(
                #[trigger] events[j] is KeysArrived) by {
                    if j < events.len() - 1 {
                        assert(events[j] == prev_events[j]);
                    }
                }
            }
        }
    }
}

/// Every step keeps the invariant: the link never joins, backs off or polls
/// without keys, and the retry count stays within its cap.
pub proof fn lemma_step_keeps_link_wf(l: Link, e: LinkEvent)
    requires
        link_wf(l),
    ensures
        link_wf(spec_link_step(l, e).0),
{
}

/// A fresh link satisfies the invariant.
pub proof fn lemma_initial_link_wf()
    ensures
        link_wf(initial_link()),
{
}

/// Each backoff sleep lasts between the base delay for the retry count and
/// a fifth more, and the base grows by ten seconds per failed join up to an
/// hour.
pub proof fn lemma_backoff_sleep(l: Link, r: u32)
    requires
        l.phase == LinkPhase::Joining,
    ensures
        spec_link_step(l, LinkEvent::JoinFailed(r)).1 matches LinkAction::Sleep(d) && base_delay(
            capped_retries(l.retries),
        ) <= d <= base_delay(capped_retries(l.retries)) + base_delay(capped_retries(l.retries))
            / 5,
{
    lemma_delay_bounds(r, capped_retries(l.retries));
}

/// A failed join while joining counts one more retry, up to the cap, and
/// sleeps a delay whose base is the one for the retry count before the
/// failure (10 s more per earlier failure, at most an hour); the sleep's end
/// rejoins with the count kept.
pub proof fn lemma_failed_join_counts(l: Link, r: u32)
    requires
        l.phase == LinkPhase::Joining,
    ensures
        ({
            let (l2, a) = spec_link_step(l, LinkEvent::JoinFailed(r));
            let prior = if l.retries < MAX_JOIN_RETRIES {
                l.retries as int
            } else {
                MAX_JOIN_RETRIES as int
            };
            let base = if 10 + 10 * prior < 3600 {
                10 + 10 * prior
            } else {
                3600
            };
            &&& l2.retries == if l.retries < MAX_JOIN_RETRIES {
                l.retries + 1
            } else {
                MAX_JOIN_RETRIES as int
            }
            &&& l2.phase == LinkPhase::Backoff
            &&& l2.keys == l.keys
            &&& a matches LinkAction::Sleep(d) && base <= d <= base + base / 5
            &&& spec_link_step(l2, LinkEvent::SleepDone) == (
                Link { phase: LinkPhase::Joining, ..l2 },
                LinkAction::Join,
            )
        }),
{
    lemma_delay_bounds(r, capped_retries(l.retries));
}

/// The events of `n` failed join attempts, each followed by its backoff:
/// one random draw per attempt.
pub open spec fn failed_joins(draws: Seq<u32>) -> Seq<LinkEvent>
    decreases draws.len(),
{
    if draws.len() == 0 {
        Seq::empty()
    } else {
        failed_joins(draws.drop_last()) + seq![
            LinkEvent::JoinFailed(draws.last()),
            LinkEvent::SleepDone,
        ]
    }
}

/// After `n` consecutive failed joins from zero retries the link is joining
/// again with `min(n, MAX_JOIN_RETRIES)` retries and the same keys, and the
/// next failure backs off from the base delay for that count.
pub proof fn lemma_consecutive_failures(l: Link, draws: Seq<u32>)
    requires
        l.phase == LinkPhase::Joining,
        l.retries == 0,
    ensures
        ({
            let l2 = spec_link_run(l, failed_joins(draws));
            &&& l2.phase == LinkPhase::Joining
            &&& l2.keys == l.keys
            &&& l2.retries == if draws.len() < MAX_JOIN_RETRIES {
                draws.len() as int
            } else {
                MAX_JOIN_RETRIES as int
            }
        }),
    decreases draws.len(),
{
    if draws.len() > 0 {
        let prev = draws.drop_last();
        lemma_consecutive_failures(l, prev);
        let evs = failed_joins(draws);
        let pe = failed_joins(prev);
        assert(evs == pe + seq![LinkEvent::JoinFailed(draws.last()), LinkEvent::SleepDone]);
        assert(evs.drop_last() == pe.push(LinkEvent::JoinFailed(draws.last())));
        assert(evs.drop_last().drop_last() == pe);
        assert(evs.last() == LinkEvent::SleepDone);
        assert(evs.drop_last().last() == LinkEvent::JoinFailed(draws.last()));
        let mid = spec_link_run(l, pe);
        assert(spec_link_run(l, evs.drop_last()) == spec_link_step(mid, LinkEvent::JoinFailed(draws.last())).0);
        lemma_failed_join_counts(mid, draws.last());
    }
}

/// Once joined, the link polls every five minutes: a finished cycle waits
/// 300 s (or for new keys), and an elapsed interval runs the next cycle,
/// keeping keys and retry count.
pub proof fn lemma_poll_cadence(l: Link)
    ensures
        l.phase == LinkPhase::Polling ==> spec_link_step(l, LinkEvent::CycleDone) == (
            Link { phase: LinkPhase::Waiting, ..l },
            LinkAction::WaitIntervalOrKeys(300),
        ),
        l.phase == LinkPhase::Waiting ==> spec_link_step(l, LinkEvent::IntervalElapsed) == (
            Link { phase: LinkPhase::Polling, ..l },
            LinkAction::RunCycle,
        ),
{
}

} // verus!
