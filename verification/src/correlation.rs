//! The correlation engine: request/response calls over broadcast channels.
//!
//! Every call goes out under an exchange id and registers a waiter before its
//! request is published. One listener per response channel hands each
//! response to the waiter registered under the response's id.

use vstd::prelude::*;
use dust_dds::dcps::channels::oneshot::OneshotSender;
use crate::assoc::{
    as_map,
    lemma_entry,
    lemma_push,
    lemma_size,
    lemma_swap_remove,
    lemma_update_value,
};
use crate::listener::{ProviderResponseListener, carries, response_for, send_response};
use crate::messages::ProviderExchange;

verus! {

/// One response on its way to the call that waits for it.
#[verifier::reject_recursive_types(T)]
pub struct Fulfilment<T> {
    pub id: u32,
    pub sender: OneshotSender<T>,
    pub payload: T,
}

/// Whether sample `i` of a batch fulfils a call of the waiting set `waiting`:
/// it is the first sample of the batch to carry its id, and a call is pending
/// under that id.
pub open spec fn fulfils<T>(
    waiting: Map<u32, Option<OneshotSender<T>>>,
    samples: Seq<Option<ProviderExchange<T>>>,
    i: int,
) -> bool {
    &&& 0 <= i < samples.len()
    &&& samples[i] is Some
    &&& waiting.contains_key(samples[i]->0.id)
    &&& waiting[samples[i]->0.id] is Some
    &&& forall|j: int| 0 <= j < i ==> !carries(#[trigger] samples[j], samples[i]->0.id)
}

/// The fulfilment that sample `i` makes where it fulfils a call.
pub open spec fn fulfilment_at<T>(
    waiting: Map<u32, Option<OneshotSender<T>>>,
    samples: Seq<Option<ProviderExchange<T>>>,
    i: int,
) -> Fulfilment<T> {
    Fulfilment {
        id: samples[i]->0.id,
        sender: waiting[samples[i]->0.id]->0,
        payload: samples[i]->0.payload,
    }
}

/// The fulfilments that a batch makes on a waiting set, in the order of the
/// samples that make them.
pub open spec fn fulfilments<T>(
    waiting: Map<u32, Option<OneshotSender<T>>>,
    samples: Seq<Option<ProviderExchange<T>>>,
) -> Seq<Fulfilment<T>>
    decreases samples.len(),
{
    if samples.len() == 0 {
        Seq::empty()
    } else if fulfils(waiting, samples, samples.len() - 1) {
        fulfilments(waiting, samples.drop_last()).push(
            fulfilment_at(waiting, samples, samples.len() - 1),
        )
    } else {
        fulfilments(waiting, samples.drop_last())
    }
}

/// The exchange ids that the samples of a batch bear.
pub open spec fn borne_ids<T>(samples: Seq<Option<ProviderExchange<T>>>) -> Set<u32> {
    Set::new(|id: u32| exists|i: int| 0 <= i < samples.len() && carries(#[trigger] samples[i], id))
}

/// The waiting set after a batch: every waiter whose id the batch bears has left.
pub open spec fn after_batch<T>(
    waiting: Map<u32, Option<OneshotSender<T>>>,
    samples: Seq<Option<ProviderExchange<T>>>,
) -> Map<u32, Option<OneshotSender<T>>> {
    waiting.remove_keys(borne_ids(samples))
}

/// The waiting set without its abandoned waiters.
pub open spec fn pending_only<T>(waiting: Map<u32, Option<OneshotSender<T>>>) -> Map<
    u32,
    Option<OneshotSender<T>>,
> {
    waiting.restrict(Set::new(|id: u32| waiting.contains_key(id) && waiting[id] is Some))
}

/// The exchange id after `id`; the largest id is followed by 0.
pub open spec fn successor(id: u32) -> u32 {
    if id == u32::MAX {
        0
    } else {
        (id + 1) as u32
    }
}

/// Whether `id` is the first exchange id that is not in flight, counting up
/// from `from` and on from 0 after the largest id.
pub open spec fn first_free_from<T>(
    waiting: Map<u32, Option<OneshotSender<T>>>,
    from: u32,
    id: u32,
) -> bool {
    &&& !waiting.contains_key(id)
    &&& from <= id ==> forall|c: u32| from <= c < id ==> waiting.contains_key(c)
    &&& id < from ==> forall|c: u32| from <= c || c < id ==> waiting.contains_key(c)
}

/// The exchange ids of the waiters, in their order in the set.
spec fn ids<T>(calls: Seq<ProviderResponseListener<T>>) -> Seq<u32> {
    Seq::new(calls.len(), |k: int| calls[k].expected_id)
}

/// The completion slots of the waiters, in their order in the set.
spec fn slots<T>(calls: Seq<ProviderResponseListener<T>>) -> Seq<Option<OneshotSender<T>>> {
    Seq::new(calls.len(), |k: int| calls[k].response_sender)
}

spec fn distinct_ids<T>(calls: Seq<ProviderResponseListener<T>>) -> bool {
    ids(calls).no_duplicates()
}

spec fn listed<T>(calls: Seq<ProviderResponseListener<T>>, id: u32) -> bool {
    ids(calls).contains(id)
}

spec fn waiting_map<T>(calls: Seq<ProviderResponseListener<T>>) -> Map<
    u32,
    Option<OneshotSender<T>>,
> {
    as_map(ids(calls), slots(calls))
}

proof fn lemma_slot<T>(calls: Seq<ProviderResponseListener<T>>, k: int)
    requires
        distinct_ids(calls),
        0 <= k < calls.len(),
    ensures
        waiting_map(calls).contains_key(calls[k].expected_id),
        waiting_map(calls)[calls[k].expected_id] == calls[k].response_sender,
{
    lemma_entry(ids(calls), slots(calls), k);
}

proof fn lemma_listed<T>(calls: Seq<ProviderResponseListener<T>>, call: ProviderResponseListener<T>)
    requires
        distinct_ids(calls),
        !listed(calls, call.expected_id),
    ensures
        distinct_ids(calls.push(call)),
        waiting_map(calls.push(call)) == waiting_map(calls).insert(
            call.expected_id,
            call.response_sender,
        ),
{
    lemma_push(ids(calls), slots(calls), call.expected_id, call.response_sender);
    assert(ids(calls.push(call)) =~= ids(calls).push(call.expected_id));
    assert(slots(calls.push(call)) =~= slots(calls).push(call.response_sender));
}

proof fn lemma_left<T>(calls: Seq<ProviderResponseListener<T>>, k: int)
    requires
        distinct_ids(calls),
        0 <= k < calls.len(),
    ensures
        distinct_ids(calls.update(k, calls.last()).drop_last()),
        waiting_map(calls.update(k, calls.last()).drop_last()) == waiting_map(calls).remove(
            calls[k].expected_id,
        ),
{
    lemma_swap_remove(ids(calls), slots(calls), k);
    let left = calls.update(k, calls.last()).drop_last();
    assert(ids(left) =~= ids(calls).update(k, ids(calls).last()).drop_last());
    assert(slots(left) =~= slots(calls).update(k, slots(calls).last()).drop_last());
}

proof fn lemma_abandoned<T>(calls: Seq<ProviderResponseListener<T>>, k: int)
    requires
        distinct_ids(calls),
        0 <= k < calls.len(),
    ensures
        distinct_ids(
            calls.update(
                k,
                ProviderResponseListener {
                    expected_id: calls[k].expected_id,
                    response_sender: None,
                },
            ),
        ),
        waiting_map(
            calls.update(
                k,
                ProviderResponseListener {
                    expected_id: calls[k].expected_id,
                    response_sender: None,
                },
            ),
        ) == waiting_map(calls).insert(calls[k].expected_id, None),
{
    let changed = calls.update(
        k,
        ProviderResponseListener { expected_id: calls[k].expected_id, response_sender: None },
    );
    lemma_update_value(ids(calls), slots(calls), k, None);
    assert(ids(changed) =~= ids(calls));
    assert(slots(changed) =~= slots(calls).update(k, None));
}

/// What one more sample adds to a batch: its id leaves the waiting set, and it
/// makes a fulfilment exactly when a call was still pending under its id.
proof fn lemma_batch_step<T>(
    waiting: Map<u32, Option<OneshotSender<T>>>,
    samples: Seq<Option<ProviderExchange<T>>>,
    i: int,
)
    requires
        0 <= i < samples.len(),
    ensures
        samples[i] is None ==> after_batch(waiting, samples.take(i + 1)) == after_batch(
            waiting,
            samples.take(i),
        ),
        samples[i] is Some ==> after_batch(waiting, samples.take(i + 1)) == after_batch(
            waiting,
            samples.take(i),
        ).remove(samples[i]->0.id),
        fulfils(waiting, samples.take(i + 1), i) == (samples[i] is Some && after_batch(
            waiting,
            samples.take(i),
        ).contains_key(samples[i]->0.id) && after_batch(
            waiting,
            samples.take(i),
        )[samples[i]->0.id] is Some),
        fulfilment_at(waiting, samples.take(i + 1), i) == (Fulfilment {
            id: samples[i]->0.id,
            sender: waiting[samples[i]->0.id]->0,
            payload: samples[i]->0.payload,
        }),
        fulfilments(waiting, samples.take(i + 1)) == if fulfils(waiting, samples.take(i + 1), i) {
            fulfilments(waiting, samples.take(i)).push(
                fulfilment_at(waiting, samples.take(i + 1), i),
            )
        } else {
            fulfilments(waiting, samples.take(i))
        },
{
    let before = samples.take(i);
    let with = samples.take(i + 1);
    assert(with.drop_last() =~= before);
    assert(with[i] == samples[i]);
    assert forall|j: int| 0 <= j < i implies #[trigger] with[j] == before[j] by {}
    assert forall|id: u32|
        borne_ids(with).contains(id) == (borne_ids(before).contains(id) || carries(
            samples[i],
            id,
        )) by {
        if borne_ids(with).contains(id) {
            let j = choose|j: int| 0 <= j < with.len() && carries(#[trigger] with[j], id);
            if j < i {
                assert(carries(before[j], id));
            }
        }
        if borne_ids(before).contains(id) {
            let j = choose|j: int| 0 <= j < before.len() && carries(#[trigger] before[j], id);
            assert(carries(with[j], id));
        }
        if carries(samples[i], id) {
            assert(carries(with[i], id));
        }
    }
    if samples[i] is Some {
        let id = samples[i]->0.id;
        assert(after_batch(waiting, with) =~= after_batch(waiting, before).remove(id));
        if borne_ids(before).contains(id) {
            let j = choose|j: int| 0 <= j < before.len() && carries(#[trigger] before[j], id);
            assert(carries(with[j], id));
        } else {
            assert forall|j: int| 0 <= j < i implies !carries(#[trigger] with[j], id) by {
                assert(with[j] == before[j]);
            }
        }
    } else {
        assert(after_batch(waiting, with) =~= after_batch(waiting, before));
    }
}

/// Index of the waiter listed under `id`.
fn position<T>(calls: &Vec<ProviderResponseListener<T>>, id: u32) -> (found: Option<usize>)
    ensures
        match found {
            Some(k) => k < calls.len() && calls@[k as int].expected_id == id && listed(calls@, id),
            None => !listed(calls@, id),
        },
{
    let mut k: usize = 0;
    while k < calls.len()
        invariant
            k <= calls.len(),
            forall|i: int| 0 <= i < k ==> (#[trigger] ids(calls@)[i]) != id,
        decreases calls.len() - k,
    {
        if calls[k].expected_id == id {
            assert(ids(calls@)[k as int] == id);
            return Some(k);
        }
        k += 1;
    }
    None
}

/// The waiters of the calls in flight on one response channel. No two of
/// them share an exchange id.
#[verifier::reject_recursive_types(T)]
pub struct WaitingSet<T> {
    calls: Vec<ProviderResponseListener<T>>,
    next_id: u32,
}

impl<T> View for WaitingSet<T> {
    type V = Map<u32, Option<OneshotSender<T>>>;

    /// The completion slot listed under each exchange id in flight: the
    /// sender of a pending call, or nothing for a call that was abandoned.
    closed spec fn view(&self) -> Map<u32, Option<OneshotSender<T>>> {
        waiting_map(self.calls@)
    }
}

impl<T> WaitingSet<T> {
    #[verifier::type_invariant]
    spec fn well_formed(self) -> bool {
        distinct_ids(self.calls@)
    }

    /// The id at which the search for the next free exchange id starts.
    pub closed spec fn next_id(&self) -> u32 {
        self.next_id
    }

    pub fn new() -> (set: Self)
        ensures
            set@ == Map::<u32, Option<OneshotSender<T>>>::empty(),
            set.next_id() == 0,
    {
        let set = WaitingSet { calls: Vec::new(), next_id: 0 };
        assert(set@ =~= Map::<u32, Option<OneshotSender<T>>>::empty());
        set
    }

    /// An empty set whose first call goes out under `first_id`. Consumers
    /// that share a response channel keep their calls apart by starting from
    /// ids that lie far from each other.
    pub fn starting_at(first_id: u32) -> (set: Self)
        ensures
            set@ == Map::<u32, Option<OneshotSender<T>>>::empty(),
            set.next_id() == first_id,
    {
        let set = WaitingSet { calls: Vec::new(), next_id: first_id };
        assert(set@ =~= Map::<u32, Option<OneshotSender<T>>>::empty());
        set
    }

    /// Number of waiters listed, pending and abandoned.
    pub fn in_flight(&self) -> (count: usize)
        ensures
            self@.dom().finite(),
            count == self@.dom().len(),
    {
        proof {
            use_type_invariant(self);
            lemma_size(ids(self.calls@), slots(self.calls@));
        }
        self.calls.len()
    }

    /// Whether a waiter, pending or abandoned, is listed under `id`.
    pub fn contains(&self, id: u32) -> (listed: bool)
        ensures
            listed == self@.contains_key(id),
    {
        position(&self.calls, id).is_some()
    }

    /// Whether a call is pending under `id`.
    pub fn is_pending(&self, id: u32) -> (pending: bool)
        ensures
            pending == (self@.contains_key(id) && self@[id] is Some),
    {
        proof {
            use_type_invariant(self);
        }
        match position(&self.calls, id) {
            Some(k) => {
                proof {
                    lemma_slot(self.calls@, k as int);
                }
                self.calls[k].response_sender.is_some()
            },
            None => false,
        }
    }

    /// Lists a pending waiter under `id`. An id that is in flight is refused,
    /// and the sender comes back.
    pub fn register(&mut self, id: u32, sender: OneshotSender<T>) -> (outcome: Result<
        (),
        OneshotSender<T>,
    >)
        ensures
            final(self).next_id() == old(self).next_id(),
            old(self)@.contains_key(id) ==> outcome == Err::<(), OneshotSender<T>>(sender)
                && final(self)@ == old(self)@,
            !old(self)@.contains_key(id) ==> outcome is Ok && final(self)@ == old(self)@.insert(
                id,
                Some(sender),
            ),
    {
        proof {
            use_type_invariant(&*self);
        }
        if position(&self.calls, id).is_some() {
            return Err(sender);
        }
        self.list(id, sender);
        Ok(())
    }

    /// Lists a pending waiter under an id that is not in flight.
    fn list(&mut self, id: u32, sender: OneshotSender<T>)
        requires
            !old(self)@.contains_key(id),
        ensures
            final(self).next_id() == old(self).next_id(),
            final(self)@ == old(self)@.insert(id, Some(sender)),
    {
        proof {
            use_type_invariant(&*self);
        }
        let mut calls = Vec::new();
        std::mem::swap(&mut calls, &mut self.calls);
        proof {
            lemma_listed(
                calls@,
                ProviderResponseListener { expected_id: id, response_sender: Some(sender) },
            );
        }
        calls.push(ProviderResponseListener::new(id, sender));
        self.calls = calls;
    }

    /// The first exchange id that is not in flight, counting from the id
    /// after the one issued last. There is none only when every id is in flight.
    pub fn first_free(&self) -> (found: Option<u32>)
        ensures
            match found {
                Some(id) => first_free_from(self@, self.next_id(), id),
                None => forall|c: u32| self@.contains_key(c),
            },
    {
        let start = self.next_id;
        let mut upper: u64 = start as u64;
        while upper <= 0xffff_ffff
            invariant
                start == self.next_id(),
                start <= upper <= 0x1_0000_0000,
                forall|c: u32| start <= c < upper ==> self@.contains_key(c),
            decreases 0x1_0000_0000 - upper,
        {
            if position(&self.calls, upper as u32).is_none() {
                return Some(upper as u32);
            }
            assert(self@.contains_key(upper as u32));
            upper += 1;
        }
        let mut lower: u32 = 0;
        while lower < start
            invariant
                start == self.next_id(),
                lower <= start,
                forall|c: u32| start <= c || c < lower ==> self@.contains_key(c),
            decreases start - lower,
        {
            if position(&self.calls, lower).is_none() {
                return Some(lower);
            }
            assert(self@.contains_key(lower));
            lower += 1;
        }
        None
    }

    /// Begins a call: issues the first free exchange id and lists a pending
    /// waiter under it, before the call's request is published. An id that is
    /// still listed for an abandoned call is not issued again. When every id
    /// is in flight the call cannot begin, and the sender comes back.
    pub fn begin_call(&mut self, sender: OneshotSender<T>) -> (outcome: Result<
        u32,
        OneshotSender<T>,
    >)
        ensures
            match outcome {
                Ok(id) => {
                    &&& first_free_from(old(self)@, old(self).next_id(), id)
                    &&& final(self)@ == old(self)@.insert(id, Some(sender))
                    &&& final(self).next_id() == successor(id)
                },
                Err(back) => {
                    &&& back == sender
                    &&& forall|c: u32| old(self)@.contains_key(c)
                    &&& final(self)@ == old(self)@
                    &&& final(self).next_id() == old(self).next_id()
                },
            },
    {
        match self.first_free() {
            Some(id) => {
                self.list(id, sender);
                proof {
                    use_type_invariant(&*self);
                }
                self.next_id = if id == u32::MAX {
                    0
                } else {
                    id + 1
                };
                Ok(id)
            },
            None => Err(sender),
        }
    }

    /// Begins a call and wraps its request: the waiter is listed first, and
    /// only then does the envelope to publish exist, under the id of the
    /// waiter. A response can therefore never arrive before its waiter is
    /// listed. When every id is in flight, sender and request come back.
    pub fn begin_exchange<R>(&mut self, sender: OneshotSender<T>, request: R) -> (outcome: Result<
        ProviderExchange<R>,
        (OneshotSender<T>, R),
    >)
        ensures
            match outcome {
                Ok(envelope) => {
                    &&& envelope.payload == request
                    &&& first_free_from(old(self)@, old(self).next_id(), envelope.id)
                    &&& final(self)@ == old(self)@.insert(envelope.id, Some(sender))
                    &&& final(self).next_id() == successor(envelope.id)
                },
                Err(back) => {
                    &&& back == (sender, request)
                    &&& forall|c: u32| old(self)@.contains_key(c)
                    &&& final(self)@ == old(self)@
                    &&& final(self).next_id() == old(self).next_id()
                },
            },
    {
        match self.begin_call(sender) {
            Ok(id) => Ok(ProviderExchange { id, payload: request }),
            Err(sender) => Err((sender, request)),
        }
    }

    /// Abandons the call pending under `id`, as its caller does when the
    /// call's timeout elapses: the sender is let go, and the waiter stays
    /// listed so that a late response finds it and is dropped. Letting a
    /// sender go is all that is done to the slot here; that its receiver then
    /// finds the slot closed is the channel's doing and no part of the contract.
    pub fn abandon(&mut self, id: u32) -> (abandoned: bool)
        ensures
            final(self).next_id() == old(self).next_id(),
            abandoned == (old(self)@.contains_key(id) && old(self)@[id] is Some),
            abandoned ==> final(self)@ == old(self)@.insert(id, None),
            !abandoned ==> final(self)@ == old(self)@,
    {
        proof {
            use_type_invariant(&*self);
        }
        match position(&self.calls, id) {
            Some(k) => {
                proof {
                    lemma_slot(self.calls@, k as int);
                }
                if self.calls[k].response_sender.is_none() {
                    return false;
                }
                let mut calls = Vec::new();
                std::mem::swap(&mut calls, &mut self.calls);
                proof {
                    lemma_abandoned(calls@, k as int);
                }
                calls.set(k, ProviderResponseListener { expected_id: id, response_sender: None });
                self.calls = calls;
                true
            },
            None => false,
        }
    }

    /// Takes the abandoned waiters off the list and keeps the pending ones,
    /// each with its sender. An owner does this when no response to an
    /// abandoned call can still be under way, so that calls which never got a
    /// response do not pile up.
    pub fn sweep(&mut self)
        ensures
            final(self).next_id() == old(self).next_id(),
            final(self)@ == pending_only(old(self)@),
    {
        proof {
            use_type_invariant(&*self);
        }
        let ghost waiting = self@;
        let mut calls = Vec::new();
        std::mem::swap(&mut calls, &mut self.calls);
        let mut k: usize = 0;
        while k < calls.len()
            invariant
                k <= calls.len(),
                distinct_ids(calls@),
                forall|i: int| 0 <= i < k ==> (#[trigger] calls@[i]).response_sender is Some,
                forall|id: u32| #[trigger]
                    waiting_map(calls@).contains_key(id) ==> waiting.contains_key(id)
                        && waiting[id] == waiting_map(calls@)[id],
                forall|id: u32|
                    waiting.contains_key(id) && waiting[id] is Some ==> #[trigger] waiting_map(
                        calls@,
                    ).contains_key(id),
            decreases calls.len() - k,
        {
            proof {
                lemma_slot(calls@, k as int);
            }
            if calls[k].response_sender.is_none() {
                proof {
                    lemma_left(calls@, k as int);
                }
                let ghost before = calls@;
                calls.swap_remove(k);
                assert forall|i: int| 0 <= i < k implies (
                #[trigger] calls@[i]).response_sender is Some by {
                    assert(calls@[i] == before[i]);
                }
            } else {
                k += 1;
            }
        }
        proof {
            assert forall|id: u32| #[trigger]
                waiting_map(calls@).contains_key(id) implies waiting_map(calls@)[id] is Some by {
                let i = ids(calls@).index_of(id);
                assert(ids(calls@)[i] == id);
                lemma_slot(calls@, i);
            }
            assert(waiting_map(calls@) =~= pending_only(waiting));
        }
        self.calls = calls;
    }

    /// What a drained batch of response samples means for the calls in
    /// flight. Each sample is looked up by its id. Where a waiter is listed
    /// under it, the waiter leaves the set, and if its call was pending, the
    /// sample's payload is due to the call's sender. A sample without data,
    /// or under an id that is not listed, is dropped.
    pub fn resolve(&mut self, samples: Vec<Option<ProviderExchange<T>>>) -> (due: Vec<
        Fulfilment<T>,
    >)
        ensures
            final(self).next_id() == old(self).next_id(),
            final(self)@ == after_batch(old(self)@, samples@),
            due@ == fulfilments(old(self)@, samples@),
    {
        proof {
            use_type_invariant(&*self);
        }
        let ghost waiting = self@;
        let ghost all = samples@;
        let mut calls = Vec::new();
        std::mem::swap(&mut calls, &mut self.calls);
        let mut due: Vec<Fulfilment<T>> = Vec::new();
        assert(after_batch(waiting, all.take(0)) =~= waiting);
        for sample in it: samples
            invariant
                it.seq() == all,
                distinct_ids(calls@),
                waiting_map(calls@) == after_batch(waiting, all.take(it.index())),
                due@ == fulfilments(waiting, all.take(it.index())),
        {
            proof {
                lemma_batch_step(waiting, all, it.index());
            }
            match sample {
                Some(exchange) => match position(&calls, exchange.id) {
                    Some(k) => {
                        proof {
                            lemma_slot(calls@, k as int);
                            lemma_left(calls@, k as int);
                        }
                        let call = calls.swap_remove(k);
                        match call.response_sender {
                            Some(sender) => {
                                due.push(
                                    Fulfilment { id: exchange.id, sender, payload: exchange.payload },
                                );
                            },
                            None => {},
                        }
                    },
                    None => {
                        assert(waiting_map(calls@).remove(exchange.id) =~= waiting_map(calls@));
                    },
                },
                None => {},
            }
        }
        assert(all.take(all.len() as int) =~= all);
        self.calls = calls;
        due
    }

    /// Handles a drained batch of response samples: every fulfilment that
    /// [`Self::resolve`] determines is handed to its call.
    pub fn on_data_available(&mut self, samples: Vec<Option<ProviderExchange<T>>>)
        ensures
            final(self).next_id() == old(self).next_id(),
            final(self)@ == after_batch(old(self)@, samples@),
    {
        let due = self.resolve(samples);
        for fulfilment in it: due {
            send_response(fulfilment.sender, fulfilment.payload);
        }
    }
}

} // verus!
