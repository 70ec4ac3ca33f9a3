//! An application: the node of a process that only provides.

use vstd::prelude::*;
use crate::endpoint::{
    EndpointPlan,
    application_endpoint_plan,
    application_endpoints,
    participant_domain,
    spec_participant_domain,
};
use crate::messages::ProviderMessage;
use crate::registration::{ProviderStep, provider_plan, provider_registration, provider_step_views};

verus! {

/// The deciding part of an application: its name, the domain it lives in,
/// and the manifests it keeps.
pub struct Application {
    pub name: String,
    pub domain_id: u32,
    pub providers: Vec<ProviderMessage>,
}

impl Application {
    /// An application named `name` in the domain `domain_id`, with no
    /// manifest kept yet.
    pub fn new(domain_id: u32, name: &str) -> (application: Self)
        ensures
            application.domain_id == domain_id,
            application.name@ == name@,
            application.providers@.len() == 0,
    {
        Application { name: name.to_owned(), domain_id, providers: Vec::new() }
    }

    /// The domain number under which the node's participant is created.
    pub fn participant_domain(&self) -> (domain: i32)
        ensures
            domain == spec_participant_domain(self.domain_id),
    {
        participant_domain(self.domain_id)
    }

    /// The endpoints that the node opens when it is constructed, in order.
    pub fn endpoints(&self) -> (plan: Vec<EndpointPlan>)
        ensures
            plan@ == application_endpoint_plan(),
    {
        application_endpoints()
    }

    /// The steps that register a provider with this manifest.
    pub fn register_provider(&self, manifest: ProviderMessage) -> (steps: Vec<ProviderStep>)
        ensures
            provider_step_views(steps@) == provider_plan(manifest@),
    {
        provider_registration(manifest)
    }
}

} // verus!
