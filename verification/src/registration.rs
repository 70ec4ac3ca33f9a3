//! What registering a provider or a consumer with a node consists of.
//!
//! The plans say which steps a node takes and in which order; the node takes
//! them on its transport.

use vstd::prelude::*;
use crate::messages::{
    AdvertisementView,
    ConsumerDiscovery,
    ManifestView,
    FunctionalityView,
    ProvidedFunctionality,
    ProviderMessage,
};

verus! {

/// One step of a provider's registration.
#[derive(Debug)]
pub enum ProviderStep {
    /// Publish the manifest on the provider channel.
    PublishManifest(ProviderMessage),
    /// Create the channels of the functionality of this name, and bind the
    /// reader and writer in the node's table under the name.
    CreateExecutionObjects(String),
    /// Create the handle of the provider's streaming functionalities.
    CreateContinuousHandle,
}

/// Mathematical value of a [`ProviderStep`].
pub enum ProviderStepView {
    PublishManifest(ManifestView),
    CreateExecutionObjects(Seq<char>),
    CreateContinuousHandle,
}

impl View for ProviderStep {
    type V = ProviderStepView;

    open spec fn view(&self) -> ProviderStepView {
        match self {
            ProviderStep::PublishManifest(manifest) => ProviderStepView::PublishManifest(manifest@),
            ProviderStep::CreateExecutionObjects(name) => ProviderStepView::CreateExecutionObjects(
                name@,
            ),
            ProviderStep::CreateContinuousHandle => ProviderStepView::CreateContinuousHandle,
        }
    }
}

/// The views of a list of steps, in order.
pub open spec fn provider_step_views(steps: Seq<ProviderStep>) -> Seq<ProviderStepView> {
    Seq::new(steps.len(), |i: int| steps[i]@)
}

/// A provider's registration: the manifest is published first, then the
/// execution objects of each declared functionality are created in the order
/// of the manifest, and the streaming handle is created last.
pub open spec fn provider_plan(manifest: ManifestView) -> Seq<ProviderStepView> {
    seq![ProviderStepView::PublishManifest(manifest)] + Seq::new(
        manifest.functionalities.len(),
        |i: int| ProviderStepView::CreateExecutionObjects(manifest.functionalities[i].name),
    ) + seq![ProviderStepView::CreateContinuousHandle]
}

/// The steps that register a provider with this manifest, in order.
pub fn provider_registration(manifest: ProviderMessage) -> (steps: Vec<ProviderStep>)
    ensures
        provider_step_views(steps@) == provider_plan(manifest@),
{
    let mut steps: Vec<ProviderStep> = Vec::new();
    steps.push(ProviderStep::PublishManifest(manifest.clone()));
    let ghost declared = manifest.functionalities@;
    for functionality in it: manifest.functionalities
        invariant
            it.seq() == declared,
            steps@.len() == it.index() + 1,
            steps@[0]@ == ProviderStepView::PublishManifest(manifest@),
            forall|k: int|
                0 <= k < it.index() ==> (#[trigger] steps@[k + 1])@
                    == ProviderStepView::CreateExecutionObjects(declared[k].name@),
    {
        steps.push(ProviderStep::CreateExecutionObjects(functionality.name));
    }
    steps.push(ProviderStep::CreateContinuousHandle);
    proof {
        let plan = provider_plan(manifest@);
        assert(provider_step_views(steps@).len() == plan.len());
        assert forall|i: int| 0 <= i < plan.len() implies provider_step_views(steps@)[i]
            == plan[i] by {
            if 0 < i < plan.len() - 1 {
                assert(steps@[(i - 1) + 1]@ == ProviderStepView::CreateExecutionObjects(
                    declared[i - 1].name@,
                ));
            }
        }
        assert(provider_step_views(steps@) =~= plan);
    }
    steps
}

/// One step of a consumer's registration.
#[derive(Debug)]
pub enum ConsumerStep {
    /// Publish the advertisement on the consumer channel.
    Advertise(ConsumerDiscovery),
    /// Create the consumer's calling handle.
    CreateHandle,
}

/// Mathematical value of a [`ConsumerStep`].
pub enum ConsumerStepView {
    Advertise(AdvertisementView),
    CreateHandle,
}

impl View for ConsumerStep {
    type V = ConsumerStepView;

    open spec fn view(&self) -> ConsumerStepView {
        match self {
            ConsumerStep::Advertise(advertisement) => ConsumerStepView::Advertise(advertisement@),
            ConsumerStep::CreateHandle => ConsumerStepView::CreateHandle,
        }
    }
}

/// The views of a list of steps, in order.
pub open spec fn consumer_step_views(steps: Seq<ConsumerStep>) -> Seq<ConsumerStepView> {
    Seq::new(steps.len(), |i: int| steps[i]@)
}

/// A consumer's registration: one advertisement under the consumer's id for
/// each requested functionality, in the order of the requests, and then the
/// calling handle.
pub open spec fn consumer_plan(
    consumer_id: Seq<char>,
    requested: Seq<FunctionalityView>,
) -> Seq<ConsumerStepView> {
    Seq::new(
        requested.len(),
        |i: int|
            ConsumerStepView::Advertise(
                AdvertisementView { consumer_id, requested_functionality: requested[i] },
            ),
    ) + seq![ConsumerStepView::CreateHandle]
}

/// The steps that register the consumer `consumer_id` for these
/// functionalities, in order.
pub fn consumer_registration(consumer_id: String, functionalities: Vec<ProvidedFunctionality>) -> (steps:
    Vec<ConsumerStep>)
    ensures
        consumer_step_views(steps@) == consumer_plan(
            consumer_id@,
            crate::messages::functionality_views(functionalities@),
        ),
{
    let mut steps: Vec<ConsumerStep> = Vec::new();
    let ghost requested = functionalities@;
    for functionality in it: functionalities
        invariant
            it.seq() == requested,
            steps@.len() == it.index(),
            forall|k: int|
                0 <= k < it.index() ==> (#[trigger] steps@[k])@ == ConsumerStepView::Advertise(
                    AdvertisementView {
                        consumer_id: consumer_id@,
                        requested_functionality: requested[k]@,
                    },
                ),
    {
        steps.push(
            ConsumerStep::Advertise(
                ConsumerDiscovery {
                    consumer_id: consumer_id.clone(),
                    requested_functionality: functionality,
                },
            ),
        );
    }
    steps.push(ConsumerStep::CreateHandle);
    proof {
        let plan = consumer_plan(consumer_id@, crate::messages::functionality_views(requested));
        assert(consumer_step_views(steps@).len() == plan.len());
        assert(consumer_step_views(steps@) =~= plan);
    }
    steps
}

} // verus!
