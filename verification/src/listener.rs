//! Listeners: what a node does when a channel reports new samples.

use vstd::prelude::*;
use dust_dds::dcps::channels::oneshot::OneshotSender;
use crate::messages::ProviderExchange;

verus! {

/// Listener of a participant that reacts to nothing.
#[derive(Debug)]
pub struct NoOpParticipantListener;

/// Listener of a topic that reacts to nothing.
#[derive(Debug)]
pub struct NoOpTopicListener;

/// Listener of a publisher that reacts to nothing.
#[derive(Debug)]
pub struct NoOpPublisherListener;

/// Listener of a subscriber that reacts to nothing.
#[derive(Debug)]
pub struct NoOpSubscriberListener;

/// Listener of a writer that reacts to nothing.
#[derive(Debug)]
pub struct NoOpDataWriterListener;

/// Listener of a reader that reacts to nothing.
#[derive(Debug)]
pub struct NoOpDataReaderListener;

/// Most samples that a listener drains from its reader on one wake.
pub const BATCH_LIMIT: i32 = 100;

/// The samples of a batch that carry data, in their order of arrival.
pub open spec fn present<T>(samples: Seq<Option<T>>) -> Seq<T>
    decreases samples.len(),
{
    if samples.len() == 0 {
        Seq::empty()
    } else {
        match samples.last() {
            Some(data) => present(samples.drop_last()).push(data),
            None => present(samples.drop_last()),
        }
    }
}

/// Whether `replies` answers `requests` one for one: each reply carries the
/// id of its request around a result that `handler` may return for the
/// request's payload.
pub open spec fn answers<I, O, F: Fn(I) -> O>(
    handler: F,
    requests: Seq<ProviderExchange<I>>,
    replies: Seq<ProviderExchange<O>>,
) -> bool {
    &&& replies.len() == requests.len()
    &&& forall|k: int|
        0 <= k < requests.len() ==> (#[trigger] replies[k]).id == requests[k].id && call_ensures(
            handler,
            (requests[k].payload,),
            replies[k].payload,
        )
}

/// Serves the requests of one functionality with the provider's handler.
pub struct RequestListener<F> {
    pub implementation: F,
}

impl<F> RequestListener<F> {
    /// Answers a drained batch of request samples: one reply for each sample
    /// that carries data, in the order of the samples, under the request's id.
    pub fn on_data_available<I, O>(&self, samples: Vec<Option<ProviderExchange<I>>>) -> (replies:
        Vec<ProviderExchange<O>>) where F: Fn(I) -> O
        requires
            forall|k: int|
                0 <= k < present(samples@).len() ==> call_requires(
                    self.implementation,
                    (#[trigger] present(samples@)[k].payload,),
                ),
        ensures
            answers(self.implementation, present(samples@), replies@),
    {
        let mut replies: Vec<ProviderExchange<O>> = Vec::new();
        let ghost all = samples@;
        for sample in it: samples
            invariant
                it.seq() == all,
                forall|k: int|
                    0 <= k < present(all).len() ==> call_requires(
                        self.implementation,
                        (#[trigger] present(all)[k].payload,),
                    ),
                answers(self.implementation, present(all.take(it.index())), replies@),
        {
            proof {
                lemma_present_take(all, it.index());
                lemma_present_prefix(all, it.index() + 1);
            }
            match sample {
                Some(request) => {
                    let id = request.id;
                    proof {
                        let served = present(all.take(it.index())).len() as int;
                        assert(present(all.take(it.index() + 1))[served] == request);
                        assert(present(all)[served].payload == request.payload);
                    }
                    let result = (self.implementation)(request.payload);
                    replies.push(ProviderExchange { id, payload: result });
                },
                None => {},
            }
        }
        assert(all.take(all.len() as int) =~= all);
        replies
    }
}

/// The sending end of the one-shot channel of dust_dds, `OneshotSender`,
/// taken as opaque: nothing is known of a sender but which one it is.
#[verifier::external_type_specification]
#[verifier::external_body]
#[verifier::reject_recursive_types(T)]
pub struct ExOneshotSender<T>(OneshotSender<T>);

/// Hands `value` to the receiving end of a one-shot channel through
/// `OneshotSender::send` of dust_dds, which stores the value for the receiver
/// and wakes it. Nothing is claimed of the call: it returns nothing, and a
/// value sent to a receiver that is gone is stored and never read.
#[verifier::external_body]
pub(crate) fn send_response<T>(sender: OneshotSender<T>, value: T) {
    sender.send(value)
}

/// Whether a sample carries a response with exchange id `id`.
pub open spec fn carries<T>(sample: Option<ProviderExchange<T>>, id: u32) -> bool {
    sample matches Some(exchange) && exchange.id == id
}

/// The response that a batch holds for exchange id `id`: the payload of the
/// first sample that carries this id, if there is one.
pub open spec fn response_for<T>(samples: Seq<Option<ProviderExchange<T>>>, id: u32) -> Option<T>
    decreases samples.len(),
{
    if samples.len() == 0 {
        None
    } else if carries(samples[0], id) {
        Some(samples[0]->0.payload)
    } else {
        response_for(samples.drop_first(), id)
    }
}

/// A batch whose first carrier of `id` is at index `i` holds that sample's
/// payload for `id`.
pub proof fn lemma_response_at_first<T>(samples: Seq<Option<ProviderExchange<T>>>, id: u32, i: int)
    requires
        0 <= i < samples.len(),
        carries(samples[i], id),
        forall|j: int| 0 <= j < i ==> !carries(#[trigger] samples[j], id),
    ensures
        response_for(samples, id) == Some(samples[i]->0.payload),
    decreases i,
{
    if i > 0 {
        let rest = samples.drop_first();
        assert(!carries(samples[0], id));
        assert forall|j: int| 0 <= j < i - 1 implies !carries(#[trigger] rest[j], id) by {
            assert(rest[j] == samples[j + 1]);
        }
        lemma_response_at_first(rest, id, i - 1);
    }
}

/// A batch holds a response for `id` exactly when one of its samples carries `id`.
pub proof fn lemma_response_exists<T>(samples: Seq<Option<ProviderExchange<T>>>, id: u32)
    ensures
        response_for(samples, id) is Some <==> exists|i: int|
            0 <= i < samples.len() && carries(#[trigger] samples[i], id),
    decreases samples.len(),
{
    if samples.len() > 0 {
        let rest = samples.drop_first();
        lemma_response_exists(rest, id);
        if carries(samples[0], id) {
        } else if response_for(rest, id) is Some {
            let i = choose|i: int| 0 <= i < rest.len() && carries(#[trigger] rest[i], id);
            assert(carries(samples[i + 1], id));
        } else {
            assert forall|i: int| 0 <= i < samples.len() implies !carries(
                #[trigger] samples[i],
                id,
            ) by {
                if i > 0 {
                    assert(rest[i - 1] == samples[i]);
                }
            }
        }
    }
}

/// Index of the first sample of the batch that carries `id`.
pub fn find_response<T>(samples: &Vec<Option<ProviderExchange<T>>>, id: u32) -> (found: Option<
    usize,
>)
    ensures
        match found {
            Some(i) => {
                &&& i < samples.len()
                &&& carries(samples@[i as int], id)
                &&& forall|j: int| 0 <= j < i ==> !carries(#[trigger] samples@[j], id)
            },
            None => forall|j: int| 0 <= j < samples.len() ==> !carries(#[trigger] samples@[j], id),
        },
{
    let mut i: usize = 0;
    while i < samples.len()
        invariant
            i <= samples.len(),
            forall|j: int| 0 <= j < i ==> !carries(#[trigger] samples@[j], id),
        decreases samples.len() - i,
    {
        let hit = match &samples[i] {
            Some(exchange) => exchange.id == id,
            None => false,
        };
        if hit {
            return Some(i);
        }
        i += 1;
    }
    None
}

/// Takes from a drained batch the response to the call with exchange id `id`.
/// Samples that bear another id, and later samples that bear this one, are dropped.
pub fn select_response<T>(samples: Vec<Option<ProviderExchange<T>>>, id: u32) -> (response: Option<
    T,
>)
    ensures
        response == response_for(samples@, id),
{
    let mut samples = samples;
    proof {
        lemma_response_exists(samples@, id);
    }
    match find_response(&samples, id) {
        Some(i) => {
            proof {
                lemma_response_at_first(samples@, id, i as int);
            }
            match samples.swap_remove(i) {
                Some(exchange) => Some(exchange.payload),
                None => None,
            }
        },
        None => None,
    }
}

/// The waiter of one call: the exchange id that the call's request went out
/// under, and the sending end of the call's one-shot completion slot. The
/// slot is pending while the sender is held; once the sender is gone the call
/// is resolved and stays so.
#[verifier::reject_recursive_types(T)]
pub struct ProviderResponseListener<T> {
    pub expected_id: u32,
    pub response_sender: Option<OneshotSender<T>>,
}

impl<T> ProviderResponseListener<T> {
    pub fn new(expected_id: u32, response_sender: OneshotSender<T>) -> (listener: Self)
        ensures
            listener.expected_id == expected_id,
            listener.response_sender == Some(response_sender),
    {
        ProviderResponseListener { expected_id, response_sender: Some(response_sender) }
    }

    pub open spec fn spec_is_pending(&self) -> bool {
        self.response_sender is Some
    }

    /// Whether the call still waits for its response.
    #[verifier::when_used_as_spec(spec_is_pending)]
    pub fn is_pending(&self) -> (pending: bool)
        ensures
            pending == self.spec_is_pending(),
    {
        self.response_sender.is_some()
    }

    /// What a drained batch means for this call. Where the batch holds a
    /// response for the call's id, the call is resolved; if it was pending,
    /// the result is its sender with the response to hand over. A batch
    /// without such a response changes nothing.
    pub fn resolve(&mut self, samples: Vec<Option<ProviderExchange<T>>>) -> (delivery: Option<
        (OneshotSender<T>, T),
    >)
        ensures
            final(self).expected_id == old(self).expected_id,
            final(self).response_sender == if response_for(samples@, old(self).expected_id)
                is Some {
                None
            } else {
                old(self).response_sender
            },
            delivery == match (
                old(self).response_sender,
                response_for(samples@, old(self).expected_id),
            ) {
                (Some(sender), Some(payload)) => Some((sender, payload)),
                _ => None,
            },
    {
        match select_response(samples, self.expected_id) {
            Some(payload) => match self.response_sender.take() {
                Some(sender) => Some((sender, payload)),
                None => None,
            },
            None => None,
        }
    }

    /// Handles a drained batch of response samples: the first response under
    /// the call's id fulfils the call's slot, if it is still pending. The
    /// value handed over is the one that [`Self::resolve`] determines.
    pub fn on_data_available(&mut self, samples: Vec<Option<ProviderExchange<T>>>)
        ensures
            final(self).expected_id == old(self).expected_id,
            final(self).response_sender == if response_for(samples@, old(self).expected_id)
                is Some {
                None
            } else {
                old(self).response_sender
            },
    {
        match self.resolve(samples) {
            Some((sender, payload)) => send_response(sender, payload),
            None => {},
        }
    }
}

/// Extending a prefix of a batch by one sample extends its present samples
/// by that sample's data, if it has any.
pub proof fn lemma_present_take<T>(samples: Seq<Option<T>>, i: int)
    requires
        0 <= i < samples.len(),
    ensures
        present(samples.take(i + 1)) == match samples[i] {
            Some(data) => present(samples.take(i)).push(data),
            None => present(samples.take(i)),
        },
{
    assert(samples.take(i + 1).drop_last() =~= samples.take(i));
}

/// The present samples of a prefix are a prefix of the present samples.
pub proof fn lemma_present_prefix<T>(samples: Seq<Option<T>>, i: int)
    requires
        0 <= i <= samples.len(),
    ensures
        present(samples.take(i)).len() <= present(samples).len(),
        forall|k: int|
            0 <= k < present(samples.take(i)).len() ==> present(samples.take(i))[k] == present(
                samples,
            )[k],
    decreases samples.len() - i,
{
    if i == samples.len() {
        assert(samples.take(i) =~= samples);
    } else {
        lemma_present_take(samples, i);
        lemma_present_prefix(samples, i + 1);
    }
}

} // verus!
