use mycelium_computing::call::{call_step, timeout_millis, CallStep, SlotState};
use mycelium_computing::endpoint::{DirectoryChannel, EndpointRole};
use mycelium_computing::gate::{
    wait_for_reader_match, wait_for_writer_match, GateAction, GateEvent, GatePhase, MatchGate,
    POLL_INTERVAL_MS, REPLAY_WAIT_SECS,
};
use mycelium_computing::module::Module;

fn status(count: Option<i32>, elapsed_ms: u64) -> GateEvent {
    GateEvent::Status { count, elapsed_ms }
}

#[test]
fn polling_pauses_ten_milliseconds_and_replay_waits_five_seconds() {
    assert_eq!(POLL_INTERVAL_MS, 10);
    assert_eq!(REPLAY_WAIT_SECS, 5);
}

#[test]
fn bounded_wait_ends_matched_on_the_first_linked_counterpart() {
    let mut gate = MatchGate::bounded(1000);
    assert_eq!(gate.step(status(Some(0), 0)), GateAction::Poll { after_ms: 10 });
    assert_eq!(gate.step(status(None, 10)), GateAction::Poll { after_ms: 10 });
    assert_eq!(gate.phase, GatePhase::Polling);
    assert_eq!(gate.step(status(Some(1), 20)), GateAction::Finish { matched: true });
    assert_eq!(gate.phase, GatePhase::Open);
}

#[test]
fn bounded_wait_ends_unmatched_at_its_timeout() {
    let mut gate = MatchGate::bounded(25);
    assert_eq!(gate.step(status(Some(0), 0)), GateAction::Poll { after_ms: 10 });
    assert_eq!(gate.step(status(Some(0), 10)), GateAction::Poll { after_ms: 10 });
    // Five milliseconds are left: the pause is cut short.
    assert_eq!(gate.step(status(Some(0), 20)), GateAction::Poll { after_ms: 5 });
    assert_eq!(gate.step(status(Some(0), 25)), GateAction::Finish { matched: false });
    assert_eq!(gate.phase, GatePhase::Expired);
    // An expired wait stays expired, even if a counterpart shows up later.
    assert_eq!(gate.step(status(Some(3), 26)), GateAction::Finish { matched: false });
    assert_eq!(gate.phase, GatePhase::Expired);
}

#[test]
fn bounded_wait_with_zero_timeout_still_takes_a_match() {
    let mut unmatched = MatchGate::bounded(0);
    assert_eq!(unmatched.step(status(Some(0), 0)), GateAction::Finish { matched: false });
    let mut matched = MatchGate::bounded(0);
    assert_eq!(matched.step(status(Some(2), 0)), GateAction::Finish { matched: true });
}

#[test]
fn negative_or_missing_count_is_no_match() {
    let mut gate = MatchGate::bounded(100);
    assert_eq!(gate.step(status(Some(-1), 0)), GateAction::Poll { after_ms: 10 });
    assert_eq!(gate.step(status(None, 95)), GateAction::Poll { after_ms: 5 });
    assert_eq!(gate.step(status(None, 100)), GateAction::Finish { matched: false });
}

#[test]
fn presence_wait_polls_without_bound_then_waits_for_replay() {
    let mut gate = MatchGate::presence();
    assert_eq!(gate.limit_ms, None);
    assert_eq!(gate.step(status(Some(0), 0)), GateAction::Poll { after_ms: 10 });
    assert_eq!(gate.step(status(Some(0), u64::MAX)), GateAction::Poll { after_ms: 10 });
    assert_eq!(gate.step(status(Some(1), 50)), GateAction::AwaitReplay { at_most_secs: 5 });
    assert_eq!(gate.phase, GatePhase::Replaying);
    // A further look while replaying changes nothing.
    assert_eq!(gate.step(status(Some(0), 60)), GateAction::AwaitReplay { at_most_secs: 5 });
    assert_eq!(gate.step(GateEvent::ReplayEnded { complete: true }), GateAction::Finish { matched: true });
    assert_eq!(gate.phase, GatePhase::Open);
}

#[test]
fn expired_replay_is_not_fatal() {
    let mut gate = MatchGate::presence();
    assert_eq!(gate.step(status(Some(1), 0)), GateAction::AwaitReplay { at_most_secs: 5 });
    assert_eq!(gate.step(GateEvent::ReplayEnded { complete: false }), GateAction::Finish { matched: true });
    assert_eq!(gate.phase, GatePhase::Open);
}

#[test]
fn bounded_presence_gives_up_when_no_counterpart_appears() {
    let mut gate = MatchGate::bounded_presence(30);
    assert_eq!(gate.step(status(Some(0), 0)), GateAction::Poll { after_ms: 10 });
    assert_eq!(gate.step(GateEvent::ReplayEnded { complete: true }), GateAction::Poll { after_ms: 0 });
    assert_eq!(gate.step(status(Some(0), 31)), GateAction::Finish { matched: false });
    assert_eq!(gate.phase, GatePhase::Expired);
}

#[test]
fn match_waits_watch_the_right_endpoint() {
    let writer = wait_for_writer_match(150);
    assert_eq!(writer.watched, EndpointRole::Writer);
    assert_eq!(writer.gate, MatchGate { limit_ms: Some(150), replay: false, phase: GatePhase::Polling });
    let reader = wait_for_reader_match(2000);
    assert_eq!(reader.watched, EndpointRole::Reader);
    assert_eq!(reader.gate, MatchGate { limit_ms: Some(2000), replay: false, phase: GatePhase::Polling });
}

#[test]
fn module_waits_for_peers_on_the_matching_directory_channel() {
    let module = Module::new(150, "test_consumer");
    let providers = module.wait_for_providers();
    assert_eq!(providers.channel, DirectoryChannel::ProviderRegistration);
    assert_eq!(providers.gate, MatchGate::presence());
    let consumers = module.wait_for_consumers();
    assert_eq!(consumers.channel, DirectoryChannel::ConsumerDiscovery);
    assert_eq!(consumers.gate, MatchGate { limit_ms: None, replay: true, phase: GatePhase::Polling });
}

#[test]
fn module_offers_presence_waits_that_give_up() {
    let module = Module::new(150, "test_consumer");
    let providers = module.wait_for_providers_within(3000);
    assert_eq!(providers.channel, DirectoryChannel::ProviderRegistration);
    assert_eq!(providers.gate, MatchGate { limit_ms: Some(3000), replay: true, phase: GatePhase::Polling });
    let consumers = module.wait_for_consumers_within(0);
    assert_eq!(consumers.channel, DirectoryChannel::ConsumerDiscovery);
    assert_eq!(consumers.gate, MatchGate::bounded_presence(0));

    // No provider appears: the wait ends unmatched at its bound.
    let mut gate = providers.gate;
    assert_eq!(gate.step(status(Some(0), 0)), GateAction::Poll { after_ms: 10 });
    assert_eq!(gate.step(status(None, 2995)), GateAction::Poll { after_ms: 5 });
    assert_eq!(gate.step(status(Some(0), 3000)), GateAction::Finish { matched: false });

    // A provider appears in time: the wait goes on to the replay and ends matched.
    let mut gate = module.wait_for_providers_within(3000).gate;
    assert_eq!(gate.step(status(Some(1), 2999)), GateAction::AwaitReplay { at_most_secs: 5 });
    assert_eq!(gate.step(GateEvent::ReplayEnded { complete: false }), GateAction::Finish { matched: true });
}

fn returned<T>(step: CallStep<T>) -> Option<Option<T>> {
    match step {
        CallStep::Return(result) => Some(result),
        CallStep::Wait { .. } => None,
    }
}

fn pause<T>(step: CallStep<T>) -> Option<u64> {
    match step {
        CallStep::Return(_) => None,
        CallStep::Wait { at_most_ms } => Some(at_most_ms),
    }
}

#[test]
fn call_returns_its_response_whatever_the_time() {
    assert_eq!(returned(call_step(SlotState::Filled(42), 0, 5000)), Some(Some(42)));
    assert_eq!(returned(call_step(SlotState::Filled(42), 9000, 5000)), Some(Some(42)));
}

#[test]
fn call_without_provider_returns_empty_at_its_timeout() {
    assert_eq!(pause(call_step(SlotState::<i32>::Empty, 0, 5000)), Some(5000));
    assert_eq!(pause(call_step(SlotState::<i32>::Empty, 4999, 5000)), Some(1));
    assert_eq!(returned(call_step(SlotState::<i32>::Empty, 5000, 5000)), Some(None));
    assert_eq!(returned(call_step(SlotState::<i32>::Empty, 5001, 5000)), Some(None));
    assert_eq!(returned(call_step(SlotState::<i32>::Empty, 0, 0)), Some(None));
}

#[test]
fn call_whose_slot_is_closed_returns_empty_at_once() {
    assert_eq!(returned(call_step(SlotState::<i32>::Closed, 0, 5000)), Some(None));
}

#[test]
fn timeouts_convert_to_milliseconds() {
    assert_eq!(timeout_millis(2, 0), 2000);
    assert_eq!(timeout_millis(8, 0), 8000);
    assert_eq!(timeout_millis(0, 100_000_000), 100);
    assert_eq!(timeout_millis(1, 999_999), 1000);
    assert_eq!(timeout_millis(1, 1_000_000), 1001);
    assert_eq!(timeout_millis(0, 0), 0);
    assert_eq!(timeout_millis(-1, 500_000_000), 0);
    assert_eq!(timeout_millis(i32::MAX, u32::MAX), 2_147_483_647_000 + 4294);
}
