//! The well-known directory channels and the endpoints a node opens on them.

use vstd::prelude::*;
use crate::qos::{QosChoice, reliable_qos, reliable_reader_qos, reliable_writer_qos};

verus! {

/// The two broadcast channels of the discovery directory.
#[derive(Clone, Copy, Debug, PartialEq, Eq, Structural)]
pub enum DirectoryChannel {
    /// Carries provider manifests, keyed by provider name.
    ProviderRegistration,
    /// Carries consumer advertisements, keyed by consumer id.
    ConsumerDiscovery,
}

impl DirectoryChannel {
    /// Name of the channel on the transport; its data type goes by the same name.
    pub open spec fn spec_topic_name(self) -> Seq<char> {
        match self {
            DirectoryChannel::ProviderRegistration => "ProviderRegistration"@,
            DirectoryChannel::ConsumerDiscovery => "ConsumerDiscovery"@,
        }
    }

    pub fn topic_name(self) -> (name: &'static str)
        ensures
            name@ == self.spec_topic_name(),
    {
        match self {
            DirectoryChannel::ProviderRegistration => "ProviderRegistration",
            DirectoryChannel::ConsumerDiscovery => "ConsumerDiscovery",
        }
    }
}

#[derive(Clone, Copy, Debug, PartialEq, Eq, Structural)]
pub enum EndpointRole {
    Writer,
    Reader,
}

/// One endpoint that a node opens when it is constructed.
#[derive(Clone, Copy, Debug, PartialEq, Eq, Structural)]
pub struct EndpointPlan {
    pub channel: DirectoryChannel,
    pub role: EndpointRole,
    pub qos: QosChoice,
    /// Whether the endpoint asks to be told when new samples are available.
    pub notify_data_available: bool,
}

/// A writer; a writer asks for no notification.
pub open spec fn writer_on(channel: DirectoryChannel, qos: QosChoice) -> EndpointPlan {
    EndpointPlan { channel, role: EndpointRole::Writer, qos, notify_data_available: false }
}

/// A reader that is told when samples are available.
pub open spec fn reader_on(channel: DirectoryChannel, qos: QosChoice) -> EndpointPlan {
    EndpointPlan { channel, role: EndpointRole::Reader, qos, notify_data_available: true }
}

/// Endpoints of a node that both provides and consumes: a reliable writer
/// and a reliable reader on each directory channel, the provider channel first.
pub open spec fn module_endpoint_plan() -> Seq<EndpointPlan> {
    seq![
        writer_on(DirectoryChannel::ProviderRegistration, QosChoice::Specific(reliable_qos())),
        reader_on(DirectoryChannel::ProviderRegistration, QosChoice::Specific(reliable_qos())),
        writer_on(DirectoryChannel::ConsumerDiscovery, QosChoice::Specific(reliable_qos())),
        reader_on(DirectoryChannel::ConsumerDiscovery, QosChoice::Specific(reliable_qos())),
    ]
}

/// Endpoints of a node that only provides: a reliable writer for its
/// manifests and a reliable reader of consumer advertisements. The manifest
/// writer retains what it publishes, so that a directory reader that joins
/// later still finds the manifest.
pub open spec fn application_endpoint_plan() -> Seq<EndpointPlan> {
    seq![
        writer_on(DirectoryChannel::ProviderRegistration, QosChoice::Specific(reliable_qos())),
        reader_on(DirectoryChannel::ConsumerDiscovery, QosChoice::Specific(reliable_qos())),
    ]
}

/// Every endpoint that a node opens on a directory channel has the reliable
/// profile, whichever kind of node opens it.
pub proof fn lemma_directory_endpoints_are_reliable(k: int)
    ensures
        0 <= k < module_endpoint_plan().len() ==> module_endpoint_plan()[k].qos
            == QosChoice::Specific(reliable_qos()),
        0 <= k < application_endpoint_plan().len() ==> application_endpoint_plan()[k].qos
            == QosChoice::Specific(reliable_qos()),
{
}

/// The endpoints that a module opens when it is constructed, in order.
pub fn module_endpoints() -> (plan: Vec<EndpointPlan>)
    ensures
        plan@ == module_endpoint_plan(),
{
    let mut plan: Vec<EndpointPlan> = Vec::new();
    plan.push(
        EndpointPlan {
            channel: DirectoryChannel::ProviderRegistration,
            role: EndpointRole::Writer,
            qos: QosChoice::Specific(reliable_writer_qos()),
            notify_data_available: false,
        },
    );
    plan.push(
        EndpointPlan {
            channel: DirectoryChannel::ProviderRegistration,
            role: EndpointRole::Reader,
            qos: QosChoice::Specific(reliable_reader_qos()),
            notify_data_available: true,
        },
    );
    plan.push(
        EndpointPlan {
            channel: DirectoryChannel::ConsumerDiscovery,
            role: EndpointRole::Writer,
            qos: QosChoice::Specific(reliable_writer_qos()),
            notify_data_available: false,
        },
    );
    plan.push(
        EndpointPlan {
            channel: DirectoryChannel::ConsumerDiscovery,
            role: EndpointRole::Reader,
            qos: QosChoice::Specific(reliable_reader_qos()),
            notify_data_available: true,
        },
    );
    assert(plan@ =~= module_endpoint_plan());
    plan
}

/// The endpoints that an application opens when it is constructed, in order.
pub fn application_endpoints() -> (plan: Vec<EndpointPlan>)
    ensures
        plan@ == application_endpoint_plan(),
{
    let mut plan: Vec<EndpointPlan> = Vec::new();
    plan.push(
        EndpointPlan {
            channel: DirectoryChannel::ProviderRegistration,
            role: EndpointRole::Writer,
            qos: QosChoice::Specific(reliable_writer_qos()),
            notify_data_available: false,
        },
    );
    plan.push(
        EndpointPlan {
            channel: DirectoryChannel::ConsumerDiscovery,
            role: EndpointRole::Reader,
            qos: QosChoice::Specific(reliable_reader_qos()),
            notify_data_available: true,
        },
    );
    assert(plan@ =~= application_endpoint_plan());
    plan
}

/// The transport's signed domain number for a node's domain id: the id
/// itself where it fits, else the id reduced by 2^32.
pub open spec fn spec_participant_domain(domain_id: u32) -> int {
    if domain_id <= i32::MAX {
        domain_id as int
    } else {
        domain_id - 0x1_0000_0000
    }
}

/// The domain number under which a node's participant is created.
pub fn participant_domain(domain_id: u32) -> (domain: i32)
    ensures
        domain == spec_participant_domain(domain_id),
{
    if domain_id <= 0x7fff_ffff {
        domain_id as i32
    } else {
        let above: u32 = domain_id - 0x8000_0000;
        let low: i32 = above as i32;
        low + i32::MIN
    }
}

} // verus!
