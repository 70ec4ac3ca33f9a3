use dust_dds::dcps::channels::oneshot::{oneshot, OneshotReceiver};
use futures::FutureExt;
use mycelium_computing::correlation::WaitingSet;
use mycelium_computing::listener::RequestListener;
use mycelium_computing::messages::ProviderExchange;

/// What the receiving end of a completion slot holds right now.
fn look<T>(receiver: OneshotReceiver<T>) -> Option<Option<T>> {
    receiver.now_or_never().map(|outcome| outcome.ok())
}

fn response(id: u32, payload: i32) -> Option<ProviderExchange<i32>> {
    Some(ProviderExchange::new(id, payload))
}

#[test]
fn register_lists_a_pending_waiter() {
    let mut waiting = WaitingSet::<i32>::new();
    let (sender, _receiver) = oneshot();
    assert!(!waiting.contains(7));
    assert!(waiting.register(7, sender).is_ok());
    assert!(waiting.contains(7));
    assert!(waiting.is_pending(7));
    assert!(!waiting.contains(8));
    assert!(!waiting.is_pending(8));
}

#[test]
fn register_refuses_an_id_in_flight() {
    let mut waiting = WaitingSet::<i32>::new();
    let (first, first_receiver) = oneshot();
    let (second, second_receiver) = oneshot();
    assert!(waiting.register(7, first).is_ok());
    let refused = waiting.register(7, second);
    assert!(refused.is_err());
    // The refused sender came back; the call listed first is the one served.
    waiting.on_data_available(vec![response(7, 42)]);
    assert_eq!(look(first_receiver), Some(Some(42)));
    drop(refused);
    assert_eq!(look(second_receiver), Some(None));
}

#[test]
fn begin_call_issues_ids_in_order() {
    let mut waiting = WaitingSet::<i32>::new();
    let mut receivers = Vec::new();
    for expected in 0..4u32 {
        let (sender, receiver) = oneshot();
        assert_eq!(waiting.begin_call(sender).ok(), Some(expected));
        receivers.push(receiver);
    }
    assert!(waiting.is_pending(0) && waiting.is_pending(3));
}

#[test]
fn begin_call_skips_ids_in_flight() {
    let mut waiting = WaitingSet::<i32>::starting_at(5);
    let (a, _ra) = oneshot();
    let (b, _rb) = oneshot();
    let (c, _rc) = oneshot();
    let (d, _rd) = oneshot();
    assert!(waiting.register(5, a).is_ok());
    assert!(waiting.register(6, b).is_ok());
    assert_eq!(waiting.first_free(), Some(7));
    assert_eq!(waiting.begin_call(c).ok(), Some(7));
    assert_eq!(waiting.begin_call(d).ok(), Some(8));
}

#[test]
fn begin_call_wraps_around_after_the_largest_id() {
    let mut waiting = WaitingSet::<i32>::starting_at(u32::MAX);
    let (a, _ra) = oneshot();
    let (b, _rb) = oneshot();
    let (c, _rc) = oneshot();
    assert!(waiting.register(0, a).is_ok());
    assert_eq!(waiting.begin_call(b).ok(), Some(u32::MAX));
    // 0 is in flight, so the id after the largest is 1.
    assert_eq!(waiting.begin_call(c).ok(), Some(1));
}

#[test]
fn abandoned_id_is_not_issued_again_while_listed() {
    let mut waiting = WaitingSet::<i32>::new();
    let (a, _ra) = oneshot();
    let (b, _rb) = oneshot();
    assert_eq!(waiting.begin_call(a).ok(), Some(0));
    assert!(waiting.abandon(0));
    let mut restart = WaitingSet::<i32>::starting_at(0);
    let (c, _rc) = oneshot();
    assert!(restart.register(0, c).is_ok());
    assert!(restart.abandon(0));
    assert_eq!(restart.begin_call(b).ok(), Some(1));
}

#[test]
fn begin_exchange_wraps_the_request_under_the_listed_id() {
    let mut waiting = WaitingSet::<i32>::starting_at(40);
    let (sender, receiver) = oneshot();
    let envelope = waiting.begin_exchange(sender, (6, 7)).ok().unwrap();
    assert_eq!(envelope.id, 40);
    assert_eq!(envelope.payload, (6, 7));
    assert!(waiting.is_pending(40));
    waiting.on_data_available(vec![response(40, 42)]);
    assert_eq!(look(receiver), Some(Some(42)));
}

#[test]
fn response_fulfils_its_call_and_removes_the_waiter() {
    let mut waiting = WaitingSet::<i32>::new();
    let (sender, receiver) = oneshot();
    assert!(waiting.register(3, sender).is_ok());
    waiting.on_data_available(vec![response(3, 12)]);
    assert!(!waiting.contains(3));
    assert_eq!(look(receiver), Some(Some(12)));
}

#[test]
fn call_without_response_stays_pending() {
    let mut waiting = WaitingSet::<i32>::new();
    let (sender, receiver) = oneshot();
    assert!(waiting.register(3, sender).is_ok());
    waiting.on_data_available(vec![response(4, 12), None]);
    assert!(waiting.is_pending(3));
    assert_eq!(look(receiver), None);
}

#[test]
fn resolve_reports_what_is_due_in_sample_order() {
    let mut waiting = WaitingSet::<i32>::new();
    let (a, _ra) = oneshot();
    let (b, _rb) = oneshot();
    assert!(waiting.register(1, a).is_ok());
    assert!(waiting.register(2, b).is_ok());
    let due = waiting.resolve(vec![response(2, 20), None, response(9, 90), response(1, 10)]);
    let summary: Vec<(u32, i32)> = due.iter().map(|f| (f.id, f.payload)).collect();
    assert_eq!(summary, vec![(2, 20), (1, 10)]);
    assert!(!waiting.contains(1));
    assert!(!waiting.contains(2));
}

#[test]
fn each_call_gets_its_own_response_when_responses_interleave() {
    let mut waiting = WaitingSet::<i32>::new();
    let mut receivers = Vec::new();
    for id in [11u32, 22, 33, 44] {
        let (sender, receiver) = oneshot();
        assert!(waiting.register(id, sender).is_ok());
        receivers.push((id, receiver));
    }
    waiting.on_data_available(vec![response(33, 330), response(11, 110)]);
    waiting.on_data_available(vec![response(44, 440), None, response(22, 220)]);
    for (id, receiver) in receivers {
        assert_eq!(look(receiver), Some(Some(id as i32 * 10)));
    }
}

#[test]
fn unrecognized_response_is_dropped() {
    let mut waiting = WaitingSet::<i32>::new();
    let (sender, receiver) = oneshot();
    assert!(waiting.register(1, sender).is_ok());
    let due = waiting.resolve(vec![response(99, 1)]);
    assert!(due.is_empty());
    assert!(waiting.is_pending(1));
    assert!(!waiting.contains(99));
    waiting.on_data_available(vec![response(99, 2), response(1, 10)]);
    assert_eq!(look(receiver), Some(Some(10)));
}

#[test]
fn only_the_first_response_to_a_call_is_kept() {
    let mut waiting = WaitingSet::<i32>::new();
    let (sender, receiver) = oneshot();
    let (other, other_receiver) = oneshot();
    assert!(waiting.register(1, sender).is_ok());
    assert!(waiting.register(2, other).is_ok());
    // Two providers answer the same request; a third response comes in a later batch.
    let due = waiting.resolve(vec![response(1, 10), response(1, 11), response(2, 20)]);
    let summary: Vec<(u32, i32)> = due.iter().map(|f| (f.id, f.payload)).collect();
    assert_eq!(summary, vec![(1, 10), (2, 20)]);
    for fulfilment in due {
        fulfilment.sender.send(fulfilment.payload);
    }
    assert!(waiting.resolve(vec![response(1, 12)]).is_empty());
    assert_eq!(look(receiver), Some(Some(10)));
    assert_eq!(look(other_receiver), Some(Some(20)));
}

#[test]
fn response_after_abandonment_is_dropped() {
    let mut waiting = WaitingSet::<i32>::new();
    let (sender, receiver) = oneshot();
    let (other, other_receiver) = oneshot();
    assert!(waiting.register(1, sender).is_ok());
    assert!(waiting.register(2, other).is_ok());
    assert!(waiting.abandon(1));
    // The waiter stays listed, its slot is closed, and abandoning again does nothing.
    assert!(waiting.contains(1));
    assert!(!waiting.is_pending(1));
    assert!(!waiting.abandon(1));
    assert!(!waiting.abandon(77));
    assert_eq!(look(receiver), Some(None));
    let due = waiting.resolve(vec![response(1, 10), response(2, 20)]);
    let summary: Vec<(u32, i32)> = due.iter().map(|f| (f.id, f.payload)).collect();
    assert_eq!(summary, vec![(2, 20)]);
    // The late response found the abandoned waiter and took it off the list.
    assert!(!waiting.contains(1));
    drop(due);
    assert_eq!(look(other_receiver), Some(None));
}

/// One provider of `multiply` behind a broadcast channel pair.
fn multiply_provider(requests: Vec<Option<ProviderExchange<(i32, i32)>>>) -> Vec<Option<ProviderExchange<i32>>> {
    let listener = RequestListener { implementation: |request: (i32, i32)| request.0 * request.1 };
    listener.on_data_available(requests).into_iter().map(Some).collect()
}

#[test]
fn test_request_response_multiple_consumers() {
    // Five consumers share the channels; each starts its ids far from the others.
    let mut consumers = Vec::new();
    let mut requests = Vec::new();
    for i in 0..5i32 {
        let mut waiting = WaitingSet::<i32>::starting_at(i as u32 * 1000);
        let (sender, receiver) = oneshot();
        let envelope = waiting.begin_exchange(sender, (i, i + 1)).ok().unwrap();
        requests.push(Some(envelope));
        consumers.push((waiting, receiver));
    }
    let mut responses = multiply_provider(requests);
    responses.reverse();
    let mut values = Vec::new();
    for (mut waiting, receiver) in consumers {
        // Every consumer sees every response on the broadcast channel.
        let batch = responses
            .iter()
            .map(|sample| sample.as_ref().map(|e| ProviderExchange::new(e.id, e.payload)))
            .collect();
        waiting.on_data_available(batch);
        values.push(futures::executor::block_on(receiver).ok().unwrap_or(-1));
    }
    assert_eq!(values, vec![0, 2, 6, 12, 20]);
    for i in 0..5 {
        assert_eq!(values[i], i as i32 * (i as i32 + 1));
    }
}

#[test]
fn test_request_response_concurrent_requests() {
    // One consumer with five calls in flight at once.
    let mut waiting = WaitingSet::<i32>::new();
    let mut requests = Vec::new();
    let mut receivers = Vec::new();
    for i in 0..5i32 {
        let (sender, receiver) = oneshot();
        let (a, b) = (i + 1, i + 2);
        requests.push(Some(waiting.begin_exchange(sender, (a, b)).ok().unwrap()));
        receivers.push((a * b, receiver));
    }
    let mut responses = multiply_provider(requests);
    responses.swap(0, 3);
    responses.swap(1, 4);
    waiting.on_data_available(responses);
    let mut success_count = 0;
    for (expected, receiver) in receivers {
        if futures::executor::block_on(receiver).ok() == Some(expected) {
            success_count += 1;
        }
    }
    assert_eq!(success_count, 5, "All 5 concurrent consumers should receive correct responses");
}

#[test]
fn test_request_response_sequential_requests() {
    let mut waiting = WaitingSet::<i32>::new();
    let mut results = Vec::new();
    for (a, b) in [(2, 3), (4, 5), (6, 7)] {
        let (sender, receiver) = oneshot();
        let envelope = waiting.begin_exchange(sender, (a, b)).ok().unwrap();
        waiting.on_data_available(multiply_provider(vec![Some(envelope)]));
        if let Ok(result) = futures::executor::block_on(receiver) {
            results.push(result);
        }
    }
    assert_eq!(results.len(), 3, "Should receive 3 responses");
    assert_eq!(results[0], 6, "2 * 3 = 6");
    assert_eq!(results[1], 20, "4 * 5 = 20");
    assert_eq!(results[2], 42, "6 * 7 = 42");
}

#[test]
fn in_flight_counts_pending_and_abandoned_waiters() {
    let mut waiting = WaitingSet::<i32>::new();
    assert_eq!(waiting.in_flight(), 0);
    let (a, _ra) = oneshot();
    let (b, _rb) = oneshot();
    let (c, _rc) = oneshot();
    assert!(waiting.register(1, a).is_ok());
    assert!(waiting.register(2, b).is_ok());
    assert!(waiting.register(2, c).is_err());
    assert_eq!(waiting.in_flight(), 2);
    assert!(waiting.abandon(1));
    assert_eq!(waiting.in_flight(), 2);
    waiting.on_data_available(vec![response(2, 20)]);
    assert_eq!(waiting.in_flight(), 1);
}

#[test]
fn sweep_takes_off_only_the_abandoned_waiters() {
    let mut waiting = WaitingSet::<i32>::new();
    let mut receivers = Vec::new();
    for id in 0..6u32 {
        let (sender, receiver) = oneshot();
        assert!(waiting.register(id, sender).is_ok());
        receivers.push(receiver);
    }
    for id in [0u32, 2, 5] {
        assert!(waiting.abandon(id));
    }
    waiting.sweep();
    assert_eq!(waiting.in_flight(), 3);
    for id in [0u32, 2, 5] {
        assert!(!waiting.contains(id));
    }
    for id in [1u32, 3, 4] {
        assert!(waiting.is_pending(id));
    }
    // The pending calls are still served, each with its own response.
    waiting.on_data_available(vec![response(4, 40), response(0, 0), response(1, 10), response(3, 30)]);
    let results: Vec<Option<Option<i32>>> = receivers.into_iter().map(look).collect();
    assert_eq!(
        results,
        vec![Some(None), Some(Some(10)), Some(None), Some(Some(30)), Some(Some(40)), Some(None)]
    );
    waiting.sweep();
    assert_eq!(waiting.in_flight(), 0);
}
