//! The course of one call after its request is published: the race of the
//! call's completion slot against the caller's timeout.
//!
//! The caller looks at its slot, tells how long the call has been under way,
//! and is told to return or how long it may go on waiting.

use vstd::prelude::*;

verus! {

/// What the caller finds in the receiving end of its completion slot.
pub enum SlotState<T> {
    /// Nothing has arrived yet.
    Empty,
    /// The response has arrived.
    Filled(T),
    /// The sending end is gone; nothing will arrive.
    Closed,
}

/// What the caller does next.
pub enum CallStep<T> {
    /// The call is over: it returns the response, or nothing where none came
    /// in time.
    Return(Option<T>),
    /// The call goes on waiting for its slot, no longer than this many milliseconds.
    Wait { at_most_ms: u64 },
}

/// A response that has arrived is returned, whatever the time. Without one,
/// the call returns empty once its timeout has elapsed or its slot is
/// closed, and otherwise waits for what is left of the timeout.
pub open spec fn spec_call_step<T>(slot: SlotState<T>, elapsed_ms: u64, timeout_ms: u64) -> CallStep<
    T,
> {
    match slot {
        SlotState::Filled(response) => CallStep::Return(Some(response)),
        SlotState::Closed => CallStep::Return(None),
        SlotState::Empty => if elapsed_ms >= timeout_ms {
            CallStep::Return(None)
        } else {
            CallStep::Wait { at_most_ms: (timeout_ms - elapsed_ms) as u64 }
        },
    }
}

/// Says what a caller does next, given what it finds in its slot and how
/// long the call has been under way.
pub fn call_step<T>(slot: SlotState<T>, elapsed_ms: u64, timeout_ms: u64) -> (step: CallStep<T>)
    ensures
        step == spec_call_step(slot, elapsed_ms, timeout_ms),
{
    match slot {
        SlotState::Filled(response) => CallStep::Return(Some(response)),
        SlotState::Closed => CallStep::Return(None),
        SlotState::Empty => if elapsed_ms >= timeout_ms {
            CallStep::Return(None)
        } else {
            CallStep::Wait { at_most_ms: timeout_ms - elapsed_ms }
        },
    }
}

/// A call that gets no response returns empty no later than its timeout: at
/// or after the timeout it returns nothing, and before it, it is never told
/// to wait past the timeout.
pub proof fn lemma_unanswered_call_ends_empty_at_its_timeout<T>(elapsed_ms: u64, timeout_ms: u64)
    ensures
        elapsed_ms >= timeout_ms ==> spec_call_step::<T>(SlotState::Empty, elapsed_ms, timeout_ms)
            == CallStep::<T>::Return(None),
        elapsed_ms < timeout_ms ==> exists|pause: u64|
            spec_call_step::<T>(SlotState::Empty, elapsed_ms, timeout_ms) == (CallStep::<
                T,
            >::Wait { at_most_ms: pause }) && elapsed_ms + pause == timeout_ms,
{
    if elapsed_ms < timeout_ms {
        let pause = (timeout_ms - elapsed_ms) as u64;
        assert(spec_call_step::<T>(SlotState::Empty, elapsed_ms, timeout_ms) == (CallStep::<
            T,
        >::Wait { at_most_ms: pause }));
    }
}

/// A timeout of whole seconds and nanoseconds, in milliseconds: fractions of
/// a millisecond are cut off, and a negative timeout is none at all.
pub open spec fn spec_timeout_millis(sec: i32, nanosec: u32) -> int {
    if sec < 0 {
        0
    } else {
        sec * 1000 + nanosec / 1_000_000
    }
}

/// A caller's timeout in milliseconds.
pub fn timeout_millis(sec: i32, nanosec: u32) -> (millis: u64)
    ensures
        millis == spec_timeout_millis(sec, nanosec),
{
    if sec < 0 {
        0
    } else {
        let whole: u64 = sec as u64;
        let part: u64 = (nanosec / 1_000_000) as u64;
        whole * 1000 + part
    }
}

} // verus!
