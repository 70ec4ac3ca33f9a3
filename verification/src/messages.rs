//! Plain data exchanged between providers and consumers.

use vstd::prelude::*;

verus! {

/// Mathematical value of a [`ProvidedFunctionality`]: its name and the
/// identities of its input and output types.
pub struct FunctionalityView {
    pub name: Seq<char>,
    pub input_type: Seq<char>,
    pub output_type: Seq<char>,
}

/// One named, typed operation that a provider offers and a consumer may request.
#[derive(Debug)]
pub struct ProvidedFunctionality {
    pub name: String,
    pub input_type: String,
    pub output_type: String,
}

impl View for ProvidedFunctionality {
    type V = FunctionalityView;

    open spec fn view(&self) -> FunctionalityView {
        FunctionalityView {
            name: self.name@,
            input_type: self.input_type@,
            output_type: self.output_type@,
        }
    }
}

impl Clone for ProvidedFunctionality {
    fn clone(&self) -> (res: Self)
        ensures
            res@ == self@,
    {
        ProvidedFunctionality {
            name: self.name.clone(),
            input_type: self.input_type.clone(),
            output_type: self.output_type.clone(),
        }
    }
}

impl ProvidedFunctionality {
    /// Two descriptors denote the same operation exactly when their names and
    /// both type identities agree.
    pub fn same_as(&self, other: &ProvidedFunctionality) -> (res: bool)
        ensures
            res == (self@ == other@),
    {
        self.name == other.name && self.input_type == other.input_type && self.output_type
            == other.output_type
    }
}

/// The views of a list of descriptors, in order.
pub open spec fn functionality_views(list: Seq<ProvidedFunctionality>) -> Seq<FunctionalityView> {
    Seq::new(list.len(), |i: int| list[i]@)
}

/// Copies a list of descriptors, keeping their order.
pub fn clone_functionalities(list: &Vec<ProvidedFunctionality>) -> (res: Vec<
    ProvidedFunctionality,
>)
    ensures
        functionality_views(res@) == functionality_views(list@),
{
    let mut res: Vec<ProvidedFunctionality> = Vec::new();
    let mut i: usize = 0;
    while i < list.len()
        invariant
            i <= list.len(),
            res@.len() == i,
            forall|k: int| 0 <= k < i ==> (#[trigger] res@[k])@ == list@[k]@,
        decreases list.len() - i,
    {
        res.push(list[i].clone());
        i += 1;
    }
    assert(functionality_views(res@) =~= functionality_views(list@));
    res
}

/// Mathematical value of a [`ProviderMessage`].
pub struct ManifestView {
    pub provider_name: Seq<char>,
    pub functionalities: Seq<FunctionalityView>,
}

/// A provider's manifest: the operations it offers, keyed by the provider's name.
#[derive(Debug)]
pub struct ProviderMessage {
    pub provider_name: String,
    pub functionalities: Vec<ProvidedFunctionality>,
}

impl View for ProviderMessage {
    type V = ManifestView;

    open spec fn view(&self) -> ManifestView {
        ManifestView {
            provider_name: self.provider_name@,
            functionalities: functionality_views(self.functionalities@),
        }
    }
}

impl Clone for ProviderMessage {
    fn clone(&self) -> (res: Self)
        ensures
            res@ == self@,
    {
        ProviderMessage {
            provider_name: self.provider_name.clone(),
            functionalities: clone_functionalities(&self.functionalities),
        }
    }
}

/// Mathematical value of a [`ConsumerDiscovery`].
pub struct AdvertisementView {
    pub consumer_id: Seq<char>,
    pub requested_functionality: FunctionalityView,
}

/// A consumer's advertisement of one operation it wants, keyed by the
/// consumer's id. It informs observers and gates nothing.
#[derive(Debug)]
pub struct ConsumerDiscovery {
    pub consumer_id: String,
    pub requested_functionality: ProvidedFunctionality,
}

impl View for ConsumerDiscovery {
    type V = AdvertisementView;

    open spec fn view(&self) -> AdvertisementView {
        AdvertisementView {
            consumer_id: self.consumer_id@,
            requested_functionality: self.requested_functionality@,
        }
    }
}

impl Clone for ConsumerDiscovery {
    fn clone(&self) -> (res: Self)
        ensures
            res@ == self@,
    {
        ConsumerDiscovery {
            consumer_id: self.consumer_id.clone(),
            requested_functionality: self.requested_functionality.clone(),
        }
    }
}

/// The request of an operation that takes no input.
#[derive(Debug)]
pub struct EmptyMessage {
    pub _marker: u8,
}

impl Default for EmptyMessage {
    fn default() -> (res: Self)
        ensures
            res._marker == 0,
    {
        EmptyMessage { _marker: 0 }
    }
}

/// Envelope of every request and every response: the payload with the
/// exchange id that links a response to its request.
#[derive(Debug)]
pub struct ProviderExchange<T> {
    pub id: u32,
    pub payload: T,
}

impl<T> ProviderExchange<T> {
    pub fn new(id: u32, payload: T) -> (res: Self)
        ensures
            res.id == id,
            res.payload == payload,
    {
        ProviderExchange { id, payload }
    }

    /// The envelope of the response to this request: the same id around `result`.
    pub fn reply<O>(&self, result: O) -> (res: ProviderExchange<O>)
        ensures
            res.id == self.id,
            res.payload == result,
    {
        ProviderExchange { id: self.id, payload: result }
    }
}

} // verus!
