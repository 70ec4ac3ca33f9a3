//! Quality-of-service profiles of the directory channels.

use vstd::prelude::*;

verus! {

/// How long published samples outlive their publication.
#[derive(Clone, Copy, Debug, PartialEq, Eq, Structural)]
pub enum DurabilityKind {
    /// Samples reach only the readers linked when they are written.
    Volatile,
    /// The writer retains samples and replays them to readers that join later.
    TransientLocal,
    Transient,
    Persistent,
}

#[derive(Clone, Copy, Debug, PartialEq, Eq, Structural)]
pub enum ReliabilityKind {
    BestEffort,
    Reliable,
}

/// How long a reliable write may block.
#[derive(Clone, Copy, Debug, PartialEq, Eq, Structural)]
pub enum BlockingTime {
    Finite { sec: i32, nanosec: u32 },
    Infinite,
}

/// How many samples of one key are retained.
#[derive(Clone, Copy, Debug, PartialEq, Eq, Structural)]
pub enum HistoryKind {
    KeepLast(u32),
    KeepAll,
}

/// The policies that an endpoint of this library sets; every other policy
/// keeps the transport's default.
#[derive(Clone, Copy, Debug, PartialEq, Eq, Structural)]
pub struct EndpointQos {
    pub durability: DurabilityKind,
    pub reliability: ReliabilityKind,
    pub max_blocking_time: BlockingTime,
    pub history: HistoryKind,
}

/// Either the transport's default profile or one chosen by this library.
#[derive(Clone, Copy, Debug, PartialEq, Eq, Structural)]
pub enum QosChoice {
    Default,
    Specific(EndpointQos),
}

/// Number of retained samples of one key in the reliable profile.
pub const RETAINED_DEPTH: u32 = 100;

/// The reliable profile: delivery is reliable and never gives up, and the
/// last [`RETAINED_DEPTH`] samples of each key are replayed to late joiners.
pub open spec fn reliable_qos() -> EndpointQos {
    EndpointQos {
        durability: DurabilityKind::TransientLocal,
        reliability: ReliabilityKind::Reliable,
        max_blocking_time: BlockingTime::Infinite,
        history: HistoryKind::KeepLast(RETAINED_DEPTH),
    }
}

/// What a profile asks of the transport for a reader that joins late: the
/// number of samples of one key, out of `published` written before it
/// joined, that are replayed to it.
pub open spec fn replayed_samples(qos: EndpointQos, published: nat) -> nat {
    match qos.durability {
        DurabilityKind::Volatile => 0,
        _ => match qos.history {
            HistoryKind::KeepLast(depth) => if published <= depth {
                published
            } else {
                depth as nat
            },
            HistoryKind::KeepAll => published,
        },
    }
}

/// The streaming profile: delivery is reliable to the readers linked when a
/// sample is written, and nothing is kept for those that join later.
pub open spec fn streaming_qos() -> EndpointQos {
    EndpointQos {
        durability: DurabilityKind::Volatile,
        reliability: ReliabilityKind::Reliable,
        max_blocking_time: BlockingTime::Infinite,
        history: HistoryKind::KeepLast(RETAINED_DEPTH),
    }
}

/// Profile of the endpoints of a streaming functionality's channel.
pub fn continuous_qos() -> (qos: EndpointQos)
    ensures
        qos == streaming_qos(),
{
    EndpointQos {
        durability: DurabilityKind::Volatile,
        reliability: ReliabilityKind::Reliable,
        max_blocking_time: BlockingTime::Infinite,
        history: HistoryKind::KeepLast(RETAINED_DEPTH),
    }
}

/// The streaming profile asks for no replay: however many samples were
/// published before a reader joined, the reader is owed none of them.
pub proof fn lemma_streaming_replays_nothing(published: nat)
    ensures
        replayed_samples(streaming_qos(), published) == 0,
{
}

/// The reliable profile asks for the replay of what is retained: a reader
/// that joins after publication is owed the latest samples of each key, up
/// to the retained depth.
pub proof fn lemma_directory_replays_latest(published: nat)
    ensures
        replayed_samples(reliable_qos(), published) == if published <= RETAINED_DEPTH {
            published
        } else {
            RETAINED_DEPTH as nat
        },
        published > 0 ==> replayed_samples(reliable_qos(), published) > 0,
{
}

/// Profile of a writer on a directory channel.
pub fn reliable_writer_qos() -> (qos: EndpointQos)
    ensures
        qos == reliable_qos(),
{
    EndpointQos {
        durability: DurabilityKind::TransientLocal,
        reliability: ReliabilityKind::Reliable,
        max_blocking_time: BlockingTime::Infinite,
        history: HistoryKind::KeepLast(RETAINED_DEPTH),
    }
}

/// Profile of a reader on a directory channel.
pub fn reliable_reader_qos() -> (qos: EndpointQos)
    ensures
        qos == reliable_qos(),
{
    EndpointQos {
        durability: DurabilityKind::TransientLocal,
        reliability: ReliabilityKind::Reliable,
        max_blocking_time: BlockingTime::Infinite,
        history: HistoryKind::KeepLast(RETAINED_DEPTH),
    }
}

} // verus!
