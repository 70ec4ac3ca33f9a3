//! The continuous handle: a provider's streaming functionalities.
//!
//! A provider gets its handle once, when it registers, and keeps it for as
//! long as it provides. Publishing through the handle is fire and forget:
//! no exchange id, no acknowledgement, no reply.

use vstd::prelude::*;
use crate::storage::ExecutionObjects;

verus! {

/// The handle of a provider that declares no streaming functionality.
#[derive(Clone, Copy, Debug, PartialEq, Eq, Structural)]
pub struct NoContinuousHandle;

/// One writer for each streaming functionality that a provider declares,
/// under the functionality's name.
pub struct ContinuousHandle<W> {
    writers: ExecutionObjects<W>,
}

impl<W> View for ContinuousHandle<W> {
    type V = Map<Seq<char>, W>;

    /// The writer of each declared streaming functionality.
    closed spec fn view(&self) -> Map<Seq<char>, W> {
        self.writers@
    }
}

impl<W> ContinuousHandle<W> {
    /// The handle over the writers that a registration has bound.
    pub fn new(writers: ExecutionObjects<W>) -> (handle: Self)
        ensures
            handle@ == writers@,
    {
        ContinuousHandle { writers }
    }

    /// The handle without writers, for a provider that streams nothing.
    pub fn none() -> (handle: Self)
        ensures
            handle@ == Map::<Seq<char>, W>::empty(),
    {
        ContinuousHandle { writers: ExecutionObjects::new() }
    }

    /// Whether the handle has no writer.
    pub fn is_none(&self) -> (none: bool)
        ensures
            none == (self@ == Map::<Seq<char>, W>::empty()),
    {
        self.writers.is_empty()
    }

    /// The writer to publish on for the streaming functionality `name`;
    /// there is none for a name that the provider did not declare.
    pub fn writer(&self, name: &String) -> (found: Option<&W>)
        ensures
            found == if self@.contains_key(name@) {
                Some(&self@[name@])
            } else {
                None
            },
    {
        self.writers.get(name)
    }
}

} // verus!
