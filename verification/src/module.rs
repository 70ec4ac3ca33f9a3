//! A module: the node of a process that provides and consumes.
//!
//! The node here is the part that decides: which endpoints it opens, what a
//! registration consists of, how it waits for its peers. Its owner carries
//! the decisions out on the transport.

use vstd::prelude::*;
use crate::endpoint::{
    DirectoryChannel,
    EndpointPlan,
    module_endpoint_plan,
    module_endpoints,
    participant_domain,
    spec_participant_domain,
};
use crate::gate::{GatePhase, MatchGate};
use crate::messages::{ProvidedFunctionality, ProviderMessage, functionality_views};
use crate::registration::{
    ConsumerStep,
    ProviderStep,
    consumer_plan,
    consumer_registration,
    consumer_step_views,
    provider_plan,
    provider_registration,
    provider_step_views,
};

verus! {

/// A wait for the presence of peers on one directory channel, watched at
/// the node's reader of that channel.
#[derive(Clone, Copy, Debug, PartialEq, Eq, Structural)]
pub struct PresenceWait {
    pub channel: DirectoryChannel,
    pub gate: MatchGate,
}

/// The wait for peers on `channel`: it lasts until the reader is linked to a
/// writer, however long that takes, and then for the replay of what the
/// channel retains.
pub open spec fn presence_wait(channel: DirectoryChannel) -> PresenceWait {
    PresenceWait {
        channel,
        gate: MatchGate { limit_ms: None, replay: true, phase: GatePhase::Polling },
    }
}

/// The deciding part of a module: its name and the domain it lives in.
/// The wait for peers on `channel` that gives up: it lasts until the reader
/// is linked to a writer or `limit_ms` have elapsed without one, and, where a
/// writer was linked, for the replay of what the channel retains.
pub open spec fn presence_wait_within(channel: DirectoryChannel, limit_ms: u64) -> PresenceWait {
    PresenceWait {
        channel,
        gate: MatchGate { limit_ms: Some(limit_ms), replay: true, phase: GatePhase::Polling },
    }
}

pub struct Module {
    pub name: String,
    pub domain_id: u32,
}

impl Module {
    /// A module named `name` in the domain `domain_id`.
    pub fn new(domain_id: u32, name: &str) -> (module: Self)
        ensures
            module.domain_id == domain_id,
            module.name@ == name@,
    {
        Module { name: name.to_owned(), domain_id }
    }

    /// The domain number under which the node's participant is created.
    pub fn participant_domain(&self) -> (domain: i32)
        ensures
            domain == spec_participant_domain(self.domain_id),
    {
        participant_domain(self.domain_id)
    }

    /// The endpoints that the node opens when it is constructed, in order.
    pub fn endpoints(&self) -> (plan: Vec<EndpointPlan>)
        ensures
            plan@ == module_endpoint_plan(),
    {
        module_endpoints()
    }

    /// The wait for at least one provider on the provider channel.
    pub fn wait_for_providers(&self) -> (wait: PresenceWait)
        ensures
            wait == presence_wait(DirectoryChannel::ProviderRegistration),
    {
        PresenceWait { channel: DirectoryChannel::ProviderRegistration, gate: MatchGate::presence() }
    }

    /// The wait for at least one consumer on the consumer channel.
    pub fn wait_for_consumers(&self) -> (wait: PresenceWait)
        ensures
            wait == presence_wait(DirectoryChannel::ConsumerDiscovery),
    {
        PresenceWait { channel: DirectoryChannel::ConsumerDiscovery, gate: MatchGate::presence() }
    }

    /// The wait for at least one provider that ends unmatched when none has
    /// appeared after `limit_ms`.
    pub fn wait_for_providers_within(&self, limit_ms: u64) -> (wait: PresenceWait)
        ensures
            wait == presence_wait_within(DirectoryChannel::ProviderRegistration, limit_ms),
    {
        PresenceWait {
            channel: DirectoryChannel::ProviderRegistration,
            gate: MatchGate::bounded_presence(limit_ms),
        }
    }

    /// The wait for at least one consumer that ends unmatched when none has
    /// appeared after `limit_ms`.
    pub fn wait_for_consumers_within(&self, limit_ms: u64) -> (wait: PresenceWait)
        ensures
            wait == presence_wait_within(DirectoryChannel::ConsumerDiscovery, limit_ms),
    {
        PresenceWait {
            channel: DirectoryChannel::ConsumerDiscovery,
            gate: MatchGate::bounded_presence(limit_ms),
        }
    }

    /// The steps that register a provider with this manifest.
    pub fn register_provider(&self, manifest: ProviderMessage) -> (steps: Vec<ProviderStep>)
        ensures
            provider_step_views(steps@) == provider_plan(manifest@),
    {
        provider_registration(manifest)
    }

    /// The steps that register a consumer of these functionalities.
    pub fn register_consumer(
        &self,
        consumer_id: String,
        functionalities: Vec<ProvidedFunctionality>,
    ) -> (steps: Vec<ConsumerStep>)
        ensures
            consumer_step_views(steps@) == consumer_plan(
                consumer_id@,
                functionality_views(functionalities@),
            ),
    {
        consumer_registration(consumer_id, functionalities)
    }
}

} // verus!
