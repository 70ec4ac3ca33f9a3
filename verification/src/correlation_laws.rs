//! What holds of every dispatch of responses to waiting calls.

use vstd::prelude::*;
use dust_dds::dcps::channels::oneshot::OneshotSender;
use crate::correlation::{Fulfilment, after_batch, borne_ids, fulfilment_at, fulfilments, fulfils};
use crate::listener::{carries, lemma_response_at_first, lemma_response_exists, response_for};
use crate::messages::ProviderExchange;

verus! {

/// Index of the sample that makes fulfilment `k` of a batch.
pub open spec fn source<T>(
    waiting: Map<u32, Option<OneshotSender<T>>>,
    samples: Seq<Option<ProviderExchange<T>>>,
    k: int,
) -> int
    decreases samples.len(),
{
    if samples.len() == 0 {
        0
    } else if fulfils(waiting, samples, samples.len() - 1) && k == fulfilments(
        waiting,
        samples.drop_last(),
    ).len() {
        samples.len() - 1
    } else {
        source(waiting, samples.drop_last(), k)
    }
}

/// Whether a sample fulfils a call does not depend on the samples after it.
proof fn lemma_fulfils_extends<T>(
    waiting: Map<u32, Option<OneshotSender<T>>>,
    samples: Seq<Option<ProviderExchange<T>>>,
    i: int,
)
    requires
        0 <= i < samples.len() - 1,
    ensures
        fulfils(waiting, samples.drop_last(), i) == fulfils(waiting, samples, i),
        fulfilment_at(waiting, samples.drop_last(), i) == fulfilment_at(waiting, samples, i),
{
    let rest = samples.drop_last();
    assert(rest[i] == samples[i]);
    let id = samples[i]->0.id;
    assert forall|j: int| 0 <= j < i implies carries(#[trigger] rest[j], id) == carries(
        samples[j],
        id,
    ) by {}
    if fulfils(waiting, rest, i) {
        assert forall|j: int| 0 <= j < i implies !carries(#[trigger] samples[j], id) by {
            assert(rest[j] == samples[j]);
        }
    }
    if fulfils(waiting, samples, i) {
        assert forall|j: int| 0 <= j < i implies !carries(#[trigger] rest[j], id) by {
            assert(rest[j] == samples[j]);
        }
    }
}

/// Fulfilment `k` of a batch is made by the sample at `source(.., k)`.
pub proof fn lemma_source<T>(
    waiting: Map<u32, Option<OneshotSender<T>>>,
    samples: Seq<Option<ProviderExchange<T>>>,
    k: int,
)
    requires
        0 <= k < fulfilments(waiting, samples).len(),
    ensures
        0 <= source(waiting, samples, k) < samples.len(),
        fulfils(waiting, samples, source(waiting, samples, k)),
        fulfilments(waiting, samples)[k] == fulfilment_at(
            waiting,
            samples,
            source(waiting, samples, k),
        ),
    decreases samples.len(),
{
    let rest = samples.drop_last();
    if fulfils(waiting, samples, samples.len() - 1) && k == fulfilments(waiting, rest).len() {
    } else {
        lemma_source(waiting, rest, k);
        lemma_fulfils_extends(waiting, samples, source(waiting, rest, k));
    }
}

/// Fulfilments keep the order of the samples that make them.
pub proof fn lemma_source_increases<T>(
    waiting: Map<u32, Option<OneshotSender<T>>>,
    samples: Seq<Option<ProviderExchange<T>>>,
    k1: int,
    k2: int,
)
    requires
        0 <= k1 < k2 < fulfilments(waiting, samples).len(),
    ensures
        source(waiting, samples, k1) < source(waiting, samples, k2),
    decreases samples.len(),
{
    let rest = samples.drop_last();
    if fulfils(waiting, samples, samples.len() - 1) && k2 == fulfilments(waiting, rest).len() {
        lemma_source(waiting, rest, k1);
    } else {
        lemma_source_increases(waiting, rest, k1, k2);
    }
}

/// A sample that fulfils a call makes one of the batch's fulfilments.
proof fn lemma_fulfilling_sample_is_listed<T>(
    waiting: Map<u32, Option<OneshotSender<T>>>,
    samples: Seq<Option<ProviderExchange<T>>>,
    i: int,
) -> (k: int)
    requires
        fulfils(waiting, samples, i),
    ensures
        0 <= k < fulfilments(waiting, samples).len(),
        fulfilments(waiting, samples)[k] == fulfilment_at(waiting, samples, i),
    decreases samples.len(),
{
    let rest = samples.drop_last();
    if i == samples.len() - 1 {
        fulfilments(waiting, rest).len() as int
    } else {
        lemma_fulfils_extends(waiting, samples, i);
        lemma_fulfilling_sample_is_listed(waiting, rest, i)
    }
}

/// Index of the first sample that carries `id`, in a batch that holds a response for `id`.
proof fn lemma_first_carrier<T>(samples: Seq<Option<ProviderExchange<T>>>, id: u32) -> (i: int)
    requires
        response_for(samples, id) is Some,
    ensures
        0 <= i < samples.len(),
        carries(samples[i], id),
        forall|j: int| 0 <= j < i ==> !carries(#[trigger] samples[j], id),
        response_for(samples, id) == Some(samples[i]->0.payload),
    decreases samples.len(),
{
    if carries(samples[0], id) {
        0
    } else {
        let rest = samples.drop_first();
        let i = lemma_first_carrier(rest, id);
        assert(rest[i] == samples[i + 1]);
        assert forall|j: int| 0 <= j < i + 1 implies !carries(#[trigger] samples[j], id) by {
            if j > 0 {
                assert(rest[j - 1] == samples[j]);
            }
        }
        i + 1
    }
}

/// No cross-talk. In whatever order the responses of a batch arrive, each
/// fulfilment goes to a call that was pending, through the sender that the
/// call registered, and carries the response that the batch holds for that
/// call's own exchange id.
pub proof fn lemma_fulfilment_is_own_response<T>(
    waiting: Map<u32, Option<OneshotSender<T>>>,
    samples: Seq<Option<ProviderExchange<T>>>,
    k: int,
)
    requires
        0 <= k < fulfilments(waiting, samples).len(),
    ensures
        waiting.contains_key(fulfilments(waiting, samples)[k].id),
        waiting[fulfilments(waiting, samples)[k].id] == Some(
            fulfilments(waiting, samples)[k].sender,
        ),
        response_for(samples, fulfilments(waiting, samples)[k].id) == Some(
            fulfilments(waiting, samples)[k].payload,
        ),
{
    lemma_source(waiting, samples, k);
    let i = source(waiting, samples, k);
    lemma_response_at_first(samples, samples[i]->0.id, i);
}

/// A completion slot is fulfilled at most once: no two fulfilments of a
/// batch go to the same call.
pub proof fn lemma_one_fulfilment_per_call<T>(
    waiting: Map<u32, Option<OneshotSender<T>>>,
    samples: Seq<Option<ProviderExchange<T>>>,
    k1: int,
    k2: int,
)
    requires
        0 <= k1 < k2 < fulfilments(waiting, samples).len(),
    ensures
        fulfilments(waiting, samples)[k1].id != fulfilments(waiting, samples)[k2].id,
{
    lemma_source(waiting, samples, k1);
    lemma_source(waiting, samples, k2);
    lemma_source_increases(waiting, samples, k1, k2);
    let i1 = source(waiting, samples, k1);
    assert(carries(samples[i1], samples[i1]->0.id));
}

/// Every pending call is served by its own response. Where the batch holds a
/// response for the call's id, the call is fulfilled with exactly that
/// response and leaves the waiting set; where it holds none, nothing is
/// handed to the call and it stays pending as it was.
pub proof fn lemma_pending_call_is_answered<T>(
    waiting: Map<u32, Option<OneshotSender<T>>>,
    samples: Seq<Option<ProviderExchange<T>>>,
    id: u32,
)
    requires
        waiting.contains_key(id),
        waiting[id] is Some,
    ensures
        response_for(samples, id) is Some ==> !after_batch(waiting, samples).contains_key(id)
            && exists|k: int|
            0 <= k < fulfilments(waiting, samples).len() && #[trigger] fulfilments(
                waiting,
                samples,
            )[k] == (Fulfilment {
                id,
                sender: waiting[id]->0,
                payload: response_for(samples, id)->0,
            }),
        response_for(samples, id) is None ==> after_batch(waiting, samples).contains_key(id)
            && after_batch(waiting, samples)[id] == waiting[id] && forall|k: int|
            0 <= k < fulfilments(waiting, samples).len() ==> (#[trigger] fulfilments(
                waiting,
                samples,
            )[k]).id != id,
{
    lemma_response_exists(samples, id);
    if response_for(samples, id) is Some {
        let i = lemma_first_carrier(samples, id);
        assert(fulfils(waiting, samples, i));
        let k = lemma_fulfilling_sample_is_listed(waiting, samples, i);
        assert(fulfilments(waiting, samples)[k] == (Fulfilment {
            id,
            sender: waiting[id]->0,
            payload: response_for(samples, id)->0,
        }));
        assert(borne_ids(samples).contains(id));
    } else {
        assert(!borne_ids(samples).contains(id));
        assert forall|k: int| 0 <= k < fulfilments(waiting, samples).len() implies (
        #[trigger] fulfilments(waiting, samples)[k]).id != id by {
            lemma_fulfilment_is_own_response(waiting, samples, k);
        }
    }
}

/// A response under an id that no pending call has is dropped. Whether the
/// id was never issued, its call was already resolved by an earlier sample of
/// the batch, or its call was abandoned: the batch makes the same
/// fulfilments with the response as without it, and leaves every other
/// waiter as it would without it.
pub proof fn lemma_unmatched_response_is_dropped<T>(
    waiting: Map<u32, Option<OneshotSender<T>>>,
    before: Seq<Option<ProviderExchange<T>>>,
    stray: ProviderExchange<T>,
    after: Seq<Option<ProviderExchange<T>>>,
)
    requires
        !(after_batch(waiting, before).contains_key(stray.id) && after_batch(
            waiting,
            before,
        )[stray.id] is Some),
    ensures
        fulfilments(waiting, before.push(Some(stray)) + after) == fulfilments(
            waiting,
            before + after,
        ),
        after_batch(waiting, before.push(Some(stray)) + after) == after_batch(
            waiting,
            before + after,
        ).remove(stray.id),
    decreases after.len(),
{
    let with = before.push(Some(stray)) + after;
    let without = before + after;
    let at = before.len() as int;
    assert(with[at] == Some(stray));
    assert forall|j: int| 0 <= j < at implies #[trigger] with[j] == before[j] && without[j]
        == before[j] by {}
    assert forall|j: int| at <= j < without.len() implies #[trigger] without[j] == with[j + 1] by {}

    // The ids borne with the stray response are those borne without it, and its own.
    assert forall|id: u32|
        borne_ids(with).contains(id) == (borne_ids(without).contains(id) || id == stray.id) by {
        if borne_ids(with).contains(id) && id != stray.id {
            let j = choose|j: int| 0 <= j < with.len() && carries(#[trigger] with[j], id);
            if j < at {
                assert(carries(without[j], id));
            } else {
                assert(without[j - 1] == with[j]);
                assert(carries(without[j - 1], id));
            }
        }
        if borne_ids(without).contains(id) {
            let j = choose|j: int| 0 <= j < without.len() && carries(#[trigger] without[j], id);
            if j < at {
                assert(carries(with[j], id));
            } else {
                assert(carries(with[j + 1], id));
            }
        }
        if id == stray.id {
            assert(carries(with[at], id));
        }
    }
    assert(after_batch(waiting, with) =~= after_batch(waiting, without).remove(stray.id));

    // A call pending under the stray id would have been resolved before it.
    if waiting.contains_key(stray.id) && waiting[stray.id] is Some {
        assert(borne_ids(before).contains(stray.id));
    }
    if after.len() == 0 {
        assert(with =~= before.push(Some(stray)));
        assert(without =~= before);
        assert(with.drop_last() =~= before);
        if fulfils(waiting, with, at) {
            let j = choose|j: int| 0 <= j < before.len() && carries(#[trigger] before[j], stray.id);
            assert(carries(with[j], stray.id));
        }
    } else {
        let shorter = after.drop_last();
        lemma_unmatched_response_is_dropped(waiting, before, stray, shorter);
        assert(with.drop_last() =~= before.push(Some(stray)) + shorter);
        assert(without.drop_last() =~= before + shorter);
        let last_with = with.len() - 1;
        let last_without = without.len() - 1;
        assert(with[last_with] == after.last());
        assert(without[last_without] == after.last());
        if after.last() is Some {
            let id = after.last()->0.id;
            if fulfils(waiting, with, last_with) {
                assert(!carries(with[at], id));
                assert forall|j: int| 0 <= j < last_without implies !carries(
                    #[trigger] without[j],
                    id,
                ) by {
                    if j < at {
                        assert(without[j] == with[j]);
                    } else {
                        assert(without[j] == with[j + 1]);
                    }
                }
            }
            if fulfils(waiting, without, last_without) {
                if id == stray.id {
                    let j = choose|j: int|
                        0 <= j < before.len() && carries(#[trigger] before[j], stray.id);
                    assert(carries(without[j], id));
                }
                assert forall|j: int| 0 <= j < last_with implies !carries(
                    #[trigger] with[j],
                    id,
                ) by {
                    if j < at {
                        assert(with[j] == without[j]);
                    } else if j > at {
                        assert(without[j - 1] == with[j]);
                    }
                }
            }
        }
        assert(fulfils(waiting, with, last_with) == fulfils(waiting, without, last_without));
        assert(fulfilment_at(waiting, with, last_with) == fulfilment_at(
            waiting,
            without,
            last_without,
        ));
    }
}

} // verus!
