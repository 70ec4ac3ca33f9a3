use dust_dds::dcps::channels::oneshot::{oneshot, OneshotReceiver};
use futures::FutureExt;
use mycelium_computing::listener::{
    find_response, select_response, ProviderResponseListener, RequestListener, BATCH_LIMIT,
};
use mycelium_computing::messages::ProviderExchange;

fn slot_content<T>(receiver: OneshotReceiver<T>) -> Option<Option<T>> {
    receiver.now_or_never().map(|outcome| outcome.ok())
}

fn sample(id: u32, payload: &str) -> Option<ProviderExchange<String>> {
    Some(ProviderExchange::new(id, payload.to_string()))
}

#[test]
fn a_wake_drains_at_most_a_hundred_samples() {
    assert_eq!(BATCH_LIMIT, 100);
}

#[test]
fn request_listener_answers_each_sample_under_its_id() {
    let listener = RequestListener { implementation: |request: (i32, i32)| request.0 * request.1 };
    let replies = listener.on_data_available(vec![
        Some(ProviderExchange::new(7, (2, 3))),
        Some(ProviderExchange::new(3, (4, 5))),
        Some(ProviderExchange::new(9, (6, 7))),
    ]);
    let summary: Vec<(u32, i32)> = replies.iter().map(|r| (r.id, r.payload)).collect();
    assert_eq!(summary, vec![(7, 6), (3, 20), (9, 42)]);
}

#[test]
fn request_listener_skips_samples_without_data() {
    let listener = RequestListener { implementation: |request: i32| request + 1 };
    let replies = listener.on_data_available(vec![
        None,
        Some(ProviderExchange::new(1, 10)),
        None,
        Some(ProviderExchange::new(2, 20)),
        None,
    ]);
    let summary: Vec<(u32, i32)> = replies.iter().map(|r| (r.id, r.payload)).collect();
    assert_eq!(summary, vec![(1, 11), (2, 21)]);
}

#[test]
fn request_listener_on_an_empty_batch_publishes_nothing() {
    let listener = RequestListener { implementation: |request: i32| request };
    assert!(listener.on_data_available(Vec::new()).is_empty());
}

#[test]
fn request_listener_answers_a_repeated_id_each_time() {
    let listener = RequestListener { implementation: |request: i32| request * 2 };
    let replies = listener.on_data_available(vec![
        Some(ProviderExchange::new(5, 1)),
        Some(ProviderExchange::new(5, 2)),
    ]);
    let summary: Vec<(u32, i32)> = replies.iter().map(|r| (r.id, r.payload)).collect();
    assert_eq!(summary, vec![(5, 2), (5, 4)]);
}

#[test]
fn find_response_gives_the_first_carrier() {
    let samples = vec![sample(1, "a"), None, sample(2, "b"), sample(2, "c"), sample(1, "d")];
    assert_eq!(find_response(&samples, 1), Some(0));
    assert_eq!(find_response(&samples, 2), Some(2));
    assert_eq!(find_response(&samples, 3), None);
    assert_eq!(find_response(&Vec::<Option<ProviderExchange<String>>>::new(), 1), None);
}

#[test]
fn select_response_takes_the_first_payload_under_the_id() {
    let batch = || vec![sample(1, "a"), None, sample(2, "b"), sample(2, "c"), sample(1, "d")];
    assert_eq!(select_response(batch(), 1), Some("a".to_string()));
    assert_eq!(select_response(batch(), 2), Some("b".to_string()));
    assert_eq!(select_response(batch(), 3), None);
    assert_eq!(select_response(vec![None, None], 0), None::<String>);
}

#[test]
fn response_listener_fulfils_its_call_with_the_matching_response() {
    let (sender, receiver) = oneshot();
    let mut listener = ProviderResponseListener::new(2, sender);
    assert!(listener.is_pending());
    listener.on_data_available(vec![sample(1, "other"), None, sample(2, "mine"), sample(2, "late")]);
    assert!(!listener.is_pending());
    assert_eq!(listener.expected_id, 2);
    assert_eq!(slot_content(receiver), Some(Some("mine".to_string())));
}

#[test]
fn response_listener_ignores_other_ids() {
    let (sender, receiver) = oneshot();
    let mut listener = ProviderResponseListener::new(2, sender);
    listener.on_data_available(vec![sample(1, "other"), sample(3, "another"), None]);
    assert!(listener.is_pending());
    assert_eq!(slot_content(receiver), None);
}

#[test]
fn response_listener_is_fulfilled_at_most_once() {
    let (sender, receiver) = oneshot();
    let mut listener = ProviderResponseListener::new(2, sender);
    listener.on_data_available(vec![sample(2, "first")]);
    listener.on_data_available(vec![sample(2, "second")]);
    assert!(!listener.is_pending());
    assert_eq!(slot_content(receiver), Some(Some("first".to_string())));
}

#[test]
fn resolve_hands_out_sender_and_payload_once() {
    let (sender, receiver) = oneshot();
    let mut listener = ProviderResponseListener::new(4, sender);
    assert!(listener.resolve(vec![sample(5, "no")]).is_none());
    assert!(listener.is_pending());
    let (sender, payload) = listener.resolve(vec![sample(5, "no"), sample(4, "yes")]).unwrap();
    assert_eq!(payload, "yes");
    assert!(!listener.is_pending());
    assert!(listener.resolve(vec![sample(4, "again")]).is_none());
    sender.send(payload);
    assert_eq!(slot_content(receiver), Some(Some("yes".to_string())));
}

#[test]
fn response_to_a_resolved_listener_without_sender_is_dropped() {
    let mut listener = ProviderResponseListener::<String> { expected_id: 1, response_sender: None };
    listener.on_data_available(vec![sample(1, "late")]);
    assert!(!listener.is_pending());
    assert_eq!(listener.expected_id, 1);
}
