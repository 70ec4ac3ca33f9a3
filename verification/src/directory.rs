//! The discovery directory: what an observer of the two directory channels
//! knows of the providers and consumers around it.
//!
//! The directory informs. Calls bind through channel names derived from the
//! functionality's name, whatever the directory holds.

use vstd::prelude::*;
use crate::messages::{
    AdvertisementView,
    ConsumerDiscovery,
    ManifestView,
    ProvidedFunctionality,
    ProviderMessage,
};

verus! {

/// Whether no two manifests of the list bear the same provider name.
pub open spec fn distinct_providers(manifests: Seq<ManifestView>) -> bool {
    forall|i: int, j: int|
        0 <= i < manifests.len() && 0 <= j < manifests.len() && i != j ==> (
        #[trigger] manifests[i]).provider_name != (#[trigger] manifests[j]).provider_name
}

/// Whether the manifest at index `k` belongs to the provider `name`.
pub open spec fn listed_at(manifests: Seq<ManifestView>, name: Seq<char>, k: int) -> bool {
    0 <= k < manifests.len() && manifests[k].provider_name == name
}

/// Whether the list holds a manifest of the provider `name`.
pub open spec fn lists(manifests: Seq<ManifestView>, name: Seq<char>) -> bool {
    exists|k: int| listed_at(manifests, name, k)
}

/// The retained manifests after `manifest` is published: it takes the place
/// of the manifest retained for its provider, or comes last where the
/// provider had none.
pub open spec fn upsert(manifests: Seq<ManifestView>, manifest: ManifestView) -> Seq<ManifestView> {
    if lists(manifests, manifest.provider_name) {
        manifests.update(choose|k: int| listed_at(manifests, manifest.provider_name, k), manifest)
    } else {
        manifests.push(manifest)
    }
}

/// The views of a list of manifests, in order.
pub open spec fn manifest_views(manifests: Seq<ProviderMessage>) -> Seq<ManifestView> {
    Seq::new(manifests.len(), |i: int| manifests[i]@)
}

/// The views of a list of advertisements, in order.
pub open spec fn advertisement_views(advertisements: Seq<ConsumerDiscovery>) -> Seq<
    AdvertisementView,
> {
    Seq::new(advertisements.len(), |i: int| advertisements[i]@)
}

/// Publishing a manifest keeps provider names distinct, retains the manifest
/// under its provider's name, and leaves every other provider's manifest in place.
pub proof fn lemma_upsert(manifests: Seq<ManifestView>, manifest: ManifestView)
    requires
        distinct_providers(manifests),
    ensures
        distinct_providers(upsert(manifests, manifest)),
        lists(upsert(manifests, manifest), manifest.provider_name),
        forall|k: int|
            listed_at(upsert(manifests, manifest), manifest.provider_name, k) ==> upsert(
                manifests,
                manifest,
            )[k] == manifest,
        forall|k: int|
            0 <= k < manifests.len() && manifests[k].provider_name != manifest.provider_name
                ==> #[trigger] upsert(manifests, manifest)[k] == manifests[k],
{
    let name = manifest.provider_name;
    let after = upsert(manifests, manifest);
    if lists(manifests, name) {
        let at = choose|k: int| listed_at(manifests, name, k);
        assert forall|i: int| 0 <= i < after.len() implies (#[trigger] after[i]).provider_name
            == manifests[i].provider_name by {}
        assert forall|i: int, j: int|
            0 <= i < after.len() && 0 <= j < after.len() && i != j implies (
        #[trigger] after[i]).provider_name != (#[trigger] after[j]).provider_name by {
            assert(after[i].provider_name == manifests[i].provider_name);
            assert(after[j].provider_name == manifests[j].provider_name);
        }
        assert(listed_at(after, name, at));
        assert forall|k: int| listed_at(after, name, k) implies after[k] == manifest by {
            assert(after[k].provider_name == manifests[k].provider_name);
            if k != at {
                assert(manifests[k].provider_name != manifests[at].provider_name);
            }
        }
    } else {
        assert forall|i: int, j: int|
            0 <= i < after.len() && 0 <= j < after.len() && i != j implies (
        #[trigger] after[i]).provider_name != (#[trigger] after[j]).provider_name by {
            if i < manifests.len() {
                assert(after[i] == manifests[i]);
                assert(!listed_at(manifests, name, i));
            }
            if j < manifests.len() {
                assert(after[j] == manifests[j]);
                assert(!listed_at(manifests, name, j));
            }
        }
        assert(listed_at(after, name, manifests.len() as int));
        assert forall|k: int| listed_at(after, name, k) implies after[k] == manifest by {
            if k < manifests.len() {
                assert(after[k] == manifests[k]);
                assert(listed_at(manifests, name, k));
            }
        }
    }
}

/// Only the latest manifest of a provider is retained: when a provider
/// publishes a manifest and then another under the same name, an observer
/// that joins afterwards finds what it would find had only the second been
/// published, or, where the provider was new, the second in the place the
/// first had taken.
pub proof fn lemma_republished_manifest_replaces(
    manifests: Seq<ManifestView>,
    first: ManifestView,
    second: ManifestView,
)
    requires
        distinct_providers(manifests),
        first.provider_name == second.provider_name,
    ensures
        upsert(upsert(manifests, first), second) == upsert(manifests, second),
        forall|k: int|
            listed_at(upsert(upsert(manifests, first), second), second.provider_name, k)
                ==> upsert(upsert(manifests, first), second)[k] == second,
{
    let name = first.provider_name;
    let once = upsert(manifests, first);
    lemma_upsert(manifests, first);
    lemma_upsert(once, second);
    let at_once = choose|k: int| listed_at(once, name, k);
    assert(listed_at(once, name, at_once));
    if lists(manifests, name) {
        let at = choose|k: int| listed_at(manifests, name, k);
        assert(listed_at(manifests, name, at));
        assert(listed_at(once, name, at));
        assert(at_once == at) by {
            if at_once != at {
                assert(once[at_once].provider_name != once[at].provider_name);
            }
        }
        assert(upsert(once, second) =~= upsert(manifests, second));
    } else {
        let end = manifests.len() as int;
        assert(listed_at(once, name, end));
        assert(at_once == end) by {
            if at_once != end {
                assert(once[at_once].provider_name != once[end].provider_name);
            }
        }
        assert(upsert(once, second) =~= upsert(manifests, second));
    }
}

/// Index of the manifest of the provider `name`.
fn position(providers: &Vec<ProviderMessage>, name: &String) -> (found: Option<usize>)
    ensures
        match found {
            Some(k) => listed_at(manifest_views(providers@), name@, k as int),
            None => !lists(manifest_views(providers@), name@),
        },
{
    let mut k: usize = 0;
    while k < providers.len()
        invariant
            k <= providers.len(),
            forall|i: int| 0 <= i < k ==> !listed_at(manifest_views(providers@), name@, i),
        decreases providers.len() - k,
    {
        if providers[k].provider_name == *name {
            return Some(k);
        }
        k += 1;
    }
    None
}

/// The manifests and advertisements that the directory channels retain.
pub struct Directory {
    providers: Vec<ProviderMessage>,
    consumers: Vec<ConsumerDiscovery>,
}

impl Directory {
    #[verifier::type_invariant]
    spec fn well_formed(self) -> bool {
        distinct_providers(manifest_views(self.providers@))
    }

    /// The retained manifests, one for each provider, in the order in which
    /// the providers first appeared.
    pub closed spec fn providers(&self) -> Seq<ManifestView> {
        manifest_views(self.providers@)
    }

    /// The advertisements, in the order in which they were published.
    pub closed spec fn consumers(&self) -> Seq<AdvertisementView> {
        advertisement_views(self.consumers@)
    }

    pub fn new() -> (directory: Self)
        ensures
            directory.providers() == Seq::<ManifestView>::empty(),
            directory.consumers() == Seq::<AdvertisementView>::empty(),
            distinct_providers(directory.providers()),
    {
        let directory = Directory { providers: Vec::new(), consumers: Vec::new() };
        assert(directory.providers() =~= Seq::<ManifestView>::empty());
        assert(directory.consumers() =~= Seq::<AdvertisementView>::empty());
        directory
    }

    /// Takes in a manifest published on the provider channel. It replaces
    /// what the directory retained for the same provider name: afterwards
    /// the directory holds this manifest, and no other, for the provider, and
    /// every other provider's manifest as before.
    pub fn advertise_provider(&mut self, manifest: ProviderMessage)
        ensures
            distinct_providers(old(self).providers()),
            distinct_providers(final(self).providers()),
            final(self).providers() == upsert(old(self).providers(), manifest@),
            final(self).consumers() == old(self).consumers(),
            lists(final(self).providers(), manifest@.provider_name),
            forall|k: int|
                listed_at(final(self).providers(), manifest@.provider_name, k)
                    ==> final(self).providers()[k] == manifest@,
            forall|k: int|
                0 <= k < old(self).providers().len() && old(self).providers()[k].provider_name
                    != manifest@.provider_name
                    ==> #[trigger] final(self).providers()[k] == old(self).providers()[k],
    {
        proof {
            use_type_invariant(&*self);
            lemma_upsert(self.providers(), manifest@);
        }
        let ghost before = self.providers();
        let found = position(&self.providers, &manifest.provider_name);
        let mut providers = Vec::new();
        std::mem::swap(&mut providers, &mut self.providers);
        match found {
            Some(k) => {
                proof {
                    let chosen = choose|c: int| listed_at(before, manifest@.provider_name, c);
                    assert(listed_at(before, manifest@.provider_name, k as int));
                    if chosen != k {
                        assert(before[chosen].provider_name != before[k as int].provider_name);
                    }
                }
                providers.set(k, manifest);
            },
            None => {
                providers.push(manifest);
            },
        }
        assert(manifest_views(providers@) =~= upsert(before, manifest@));
        self.providers = providers;
    }

    /// Takes in the advertisement of one functionality that a consumer requests.
    pub fn advertise_consumer(&mut self, consumer_id: String, functionality: ProvidedFunctionality)
        ensures
            distinct_providers(final(self).providers()),
            final(self).providers() == old(self).providers(),
            final(self).consumers() == old(self).consumers().push(
                AdvertisementView {
                    consumer_id: consumer_id@,
                    requested_functionality: functionality@,
                },
            ),
    {
        proof {
            use_type_invariant(&*self);
        }
        let ghost before = self.consumers();
        let mut consumers = Vec::new();
        std::mem::swap(&mut consumers, &mut self.consumers);
        consumers.push(ConsumerDiscovery { consumer_id, requested_functionality: functionality });
        assert(advertisement_views(consumers@) =~= before.push(
            AdvertisementView { consumer_id: consumer_id@, requested_functionality: functionality@ },
        ));
        self.consumers = consumers;
    }

    /// The manifest retained for the provider `name`.
    pub fn manifest_of(&self, name: &String) -> (found: Option<&ProviderMessage>)
        ensures
            distinct_providers(self.providers()),
            found is Some == lists(self.providers(), name@),
            found is Some ==> found->0@.provider_name == name@ && exists|k: int|
                listed_at(self.providers(), name@, k) && self.providers()[k] == found->0@,
    {
        proof {
            use_type_invariant(self);
        }
        match position(&self.providers, name) {
            Some(k) => {
                assert(listed_at(self.providers(), name@, k as int));
                Some(&self.providers[k])
            },
            None => None,
        }
    }

    /// What an observer that joins now is given: the retained manifests,
    /// one for each provider name.
    pub fn retained_manifests(&self) -> (manifests: Vec<ProviderMessage>)
        ensures
            manifest_views(manifests@) == self.providers(),
            distinct_providers(self.providers()),
    {
        proof {
            use_type_invariant(self);
        }
        let mut manifests: Vec<ProviderMessage> = Vec::new();
        let mut k: usize = 0;
        while k < self.providers.len()
            invariant
                k <= self.providers.len(),
                manifests@.len() == k,
                forall|i: int| 0 <= i < k ==> (#[trigger] manifests@[i])@ == self.providers@[i]@,
            decreases self.providers.len() - k,
        {
            manifests.push(self.providers[k].clone());
            k += 1;
        }
        assert(manifest_views(manifests@) =~= self.providers());
        manifests
    }

    /// The advertisements published so far.
    pub fn advertisements(&self) -> (advertisements: Vec<ConsumerDiscovery>)
        ensures
            advertisement_views(advertisements@) == self.consumers(),
    {
        let mut advertisements: Vec<ConsumerDiscovery> = Vec::new();
        let mut k: usize = 0;
        while k < self.consumers.len()
            invariant
                k <= self.consumers.len(),
                advertisements@.len() == k,
                forall|i: int|
                    0 <= i < k ==> (#[trigger] advertisements@[i])@ == self.consumers@[i]@,
            decreases self.consumers.len() - k,
        {
            advertisements.push(self.consumers[k].clone());
            k += 1;
        }
        assert(advertisement_views(advertisements@) =~= self.consumers());
        advertisements
    }
}

} // verus!
