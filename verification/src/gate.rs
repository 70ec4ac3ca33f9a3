//! The matched-count gate: waiting until a channel has a linked counterpart.
//!
//! A wait decides; its driver looks at the endpoint's match count, sleeps
//! and reports back. Time is what the driver's clock says has elapsed since
//! the wait began.

use vstd::prelude::*;
use crate::endpoint::EndpointRole;

verus! {

/// Pause between two looks at the match count, in milliseconds.
pub const POLL_INTERVAL_MS: u64 = 10;

/// Longest wait for the replay of retained samples, in seconds.
pub const REPLAY_WAIT_SECS: i32 = 5;

/// Where a wait stands.
#[derive(Clone, Copy, Debug, PartialEq, Eq, Structural)]
pub enum GatePhase {
    /// No counterpart has been seen yet.
    Polling,
    /// A counterpart is linked; retained samples are being replayed.
    Replaying,
    /// The wait ended with a counterpart linked.
    Open,
    /// The wait's bound elapsed before any counterpart was linked.
    Expired,
}

/// What the driver observed.
#[derive(Clone, Copy, Debug, PartialEq, Eq, Structural)]
pub enum GateEvent {
    /// A look at the match count: the number of linked counterparts, or
    /// nothing where the transport failed to tell.
    Status { count: Option<i32>, elapsed_ms: u64 },
    /// The wait for retained samples ended: all were replayed, or its bound expired.
    ReplayEnded { complete: bool },
}

/// What the driver does next.
#[derive(Clone, Copy, Debug, PartialEq, Eq, Structural)]
pub enum GateAction {
    /// Look at the match count after a pause.
    Poll { after_ms: u64 },
    /// Wait for retained samples, no longer than the bound.
    AwaitReplay { at_most_secs: i32 },
    /// Stop waiting.
    Finish { matched: bool },
}

/// Whether a look at the match count found a linked counterpart.
pub open spec fn is_matched(count: Option<i32>) -> bool {
    count matches Some(linked) && linked > 0
}

/// A wait for a counterpart: an optional bound in milliseconds, and whether
/// the replay of retained samples is waited for once a counterpart is linked.
#[derive(Clone, Copy, Debug, PartialEq, Eq, Structural)]
pub struct MatchGate {
    pub limit_ms: Option<u64>,
    pub replay: bool,
    pub phase: GatePhase,
}

/// The pause before the next look: the poll interval, cut short where the
/// bound would elapse before it.
pub open spec fn next_pause(limit_ms: Option<u64>, elapsed_ms: u64) -> u64 {
    match limit_ms {
        Some(limit) if limit - elapsed_ms < POLL_INTERVAL_MS => (limit - elapsed_ms) as u64,
        _ => POLL_INTERVAL_MS,
    }
}

impl MatchGate {
    /// The phase that an event leads to.
    pub open spec fn next_phase(self, event: GateEvent) -> GatePhase {
        match (self.phase, event) {
            (GatePhase::Polling, GateEvent::Status { count, elapsed_ms }) => {
                if is_matched(count) {
                    if self.replay {
                        GatePhase::Replaying
                    } else {
                        GatePhase::Open
                    }
                } else if self.limit_ms is Some && elapsed_ms >= self.limit_ms->0 {
                    GatePhase::Expired
                } else {
                    GatePhase::Polling
                }
            },
            (GatePhase::Replaying, GateEvent::ReplayEnded { .. }) => GatePhase::Open,
            (phase, _) => phase,
        }
    }

    /// The action that an event calls for. An event that the phase does not
    /// expect repeats what the phase calls for.
    pub open spec fn next_action(self, event: GateEvent) -> GateAction {
        match self.next_phase(event) {
            GatePhase::Polling => match event {
                GateEvent::Status { elapsed_ms, .. } => GateAction::Poll {
                    after_ms: next_pause(self.limit_ms, elapsed_ms),
                },
                GateEvent::ReplayEnded { .. } => GateAction::Poll { after_ms: 0 },
            },
            GatePhase::Replaying => GateAction::AwaitReplay { at_most_secs: REPLAY_WAIT_SECS },
            GatePhase::Open => GateAction::Finish { matched: true },
            GatePhase::Expired => GateAction::Finish { matched: false },
        }
    }

    /// A wait that ends when a counterpart is linked or `timeout_ms` have elapsed.
    pub fn bounded(timeout_ms: u64) -> (gate: MatchGate)
        ensures
            gate == (MatchGate {
                limit_ms: Some(timeout_ms),
                replay: false,
                phase: GatePhase::Polling,
            }),
    {
        MatchGate { limit_ms: Some(timeout_ms), replay: false, phase: GatePhase::Polling }
    }

    /// A wait for presence: it lasts until a counterpart is linked, and then
    /// for the replay of retained samples.
    pub fn presence() -> (gate: MatchGate)
        ensures
            gate == (MatchGate { limit_ms: None, replay: true, phase: GatePhase::Polling }),
    {
        MatchGate { limit_ms: None, replay: true, phase: GatePhase::Polling }
    }

    /// A wait for presence that gives up when `limit_ms` have elapsed without
    /// a counterpart.
    pub fn bounded_presence(limit_ms: u64) -> (gate: MatchGate)
        ensures
            gate == (MatchGate { limit_ms: Some(limit_ms), replay: true, phase: GatePhase::Polling }),
    {
        MatchGate { limit_ms: Some(limit_ms), replay: true, phase: GatePhase::Polling }
    }

    /// Takes in what the driver observed and says what it does next.
    pub fn step(&mut self, event: GateEvent) -> (action: GateAction)
        ensures
            final(self).limit_ms == old(self).limit_ms,
            final(self).replay == old(self).replay,
            final(self).phase == old(self).next_phase(event),
            action == old(self).next_action(event),
    {
        match self.phase {
            GatePhase::Polling => match event {
                GateEvent::Status { count, elapsed_ms } => {
                    let matched = match count {
                        Some(linked) => linked > 0,
                        None => false,
                    };
                    if matched {
                        if self.replay {
                            self.phase = GatePhase::Replaying;
                            GateAction::AwaitReplay { at_most_secs: REPLAY_WAIT_SECS }
                        } else {
                            self.phase = GatePhase::Open;
                            GateAction::Finish { matched: true }
                        }
                    } else {
                        match self.limit_ms {
                            Some(limit) => {
                                if elapsed_ms >= limit {
                                    self.phase = GatePhase::Expired;
                                    GateAction::Finish { matched: false }
                                } else if limit - elapsed_ms < POLL_INTERVAL_MS {
                                    GateAction::Poll { after_ms: limit - elapsed_ms }
                                } else {
                                    GateAction::Poll { after_ms: POLL_INTERVAL_MS }
                                }
                            },
                            None => GateAction::Poll { after_ms: POLL_INTERVAL_MS },
                        }
                    }
                },
                GateEvent::ReplayEnded { .. } => GateAction::Poll { after_ms: 0 },
            },
            GatePhase::Replaying => match event {
                GateEvent::ReplayEnded { .. } => {
                    self.phase = GatePhase::Open;
                    GateAction::Finish { matched: true }
                },
                GateEvent::Status { .. } => GateAction::AwaitReplay {
                    at_most_secs: REPLAY_WAIT_SECS,
                },
            },
            GatePhase::Open => GateAction::Finish { matched: true },
            GatePhase::Expired => GateAction::Finish { matched: false },
        }
    }
}

/// A bounded wait for a counterpart of one endpoint: the endpoint whose
/// match count is watched, and the state of the wait.
#[derive(Clone, Copy, Debug, PartialEq, Eq, Structural)]
pub struct MatchWait {
    pub watched: EndpointRole,
    pub gate: MatchGate,
}

/// The wait of a writer for a linked reader. It ends matched as soon as a
/// look finds one, and unmatched once `timeout_ms` have elapsed.
pub fn wait_for_writer_match(timeout_ms: u64) -> (wait: MatchWait)
    ensures
        wait == (MatchWait {
            watched: EndpointRole::Writer,
            gate: MatchGate { limit_ms: Some(timeout_ms), replay: false, phase: GatePhase::Polling },
        }),
{
    MatchWait { watched: EndpointRole::Writer, gate: MatchGate::bounded(timeout_ms) }
}

/// The wait of a reader for a linked writer. It ends matched as soon as a
/// look finds one, and unmatched once `timeout_ms` have elapsed.
pub fn wait_for_reader_match(timeout_ms: u64) -> (wait: MatchWait)
    ensures
        wait == (MatchWait {
            watched: EndpointRole::Reader,
            gate: MatchGate { limit_ms: Some(timeout_ms), replay: false, phase: GatePhase::Polling },
        }),
{
    MatchWait { watched: EndpointRole::Reader, gate: MatchGate::bounded(timeout_ms) }
}

/// A bounded wait never outlasts its bound: a look that finds no counterpart
/// when the bound has elapsed ends the wait unmatched, and a pause asked for
/// before that ends no later than the bound.
pub proof fn lemma_bounded_wait_ends_at_its_bound(
    gate: MatchGate,
    count: Option<i32>,
    elapsed_ms: u64,
)
    requires
        gate.phase == GatePhase::Polling,
        gate.limit_ms is Some,
        !is_matched(count),
    ensures
        elapsed_ms >= gate.limit_ms->0 ==> gate.next_action(GateEvent::Status { count, elapsed_ms })
            == (GateAction::Finish { matched: false }),
        elapsed_ms < gate.limit_ms->0 ==> gate.next_action(GateEvent::Status { count, elapsed_ms })
            == (GateAction::Poll { after_ms: next_pause(gate.limit_ms, elapsed_ms) })
            && 0 < next_pause(gate.limit_ms, elapsed_ms) <= POLL_INTERVAL_MS && elapsed_ms
            + next_pause(gate.limit_ms, elapsed_ms) <= gate.limit_ms->0,
{
}

/// A linked counterpart ends the wait matched whatever time has elapsed, and the
/// replay of retained samples is best effort: once it ends, complete or not,
/// the wait is over.
pub proof fn lemma_match_opens_the_gate(gate: MatchGate, count: Option<i32>, elapsed_ms: u64, complete: bool)
    requires
        gate.phase == GatePhase::Polling,
        is_matched(count),
    ensures
        !gate.replay ==> gate.next_action(GateEvent::Status { count, elapsed_ms }) == (
        GateAction::Finish { matched: true }),
        gate.replay ==> gate.next_phase(GateEvent::Status { count, elapsed_ms })
            == GatePhase::Replaying && (MatchGate { phase: GatePhase::Replaying, ..gate }).next_action(
            GateEvent::ReplayEnded { complete },
        ) == (GateAction::Finish { matched: true }),
{
}

/// A wait that has ended stays ended: no event moves a gate that is open or expired.
pub proof fn lemma_finished_gate_stays_finished(gate: MatchGate, event: GateEvent)
    requires
        gate.phase == GatePhase::Open || gate.phase == GatePhase::Expired,
    ensures
        gate.next_phase(event) == gate.phase,
        gate.next_action(event) == (GateAction::Finish { matched: gate.phase == GatePhase::Open }),
{
}

} // verus!
