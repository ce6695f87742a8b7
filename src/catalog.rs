use vstd::prelude::*;
use crate::provider::{CloudProvider, ProviderView, providers_view, lemma_providers_view_push};

verus! {

/// One claim: a canonical key and a provider that owns it.
pub struct Claim {
    pub key: String,
    pub provider: CloudProvider,
}

/// The providers claimed under `key`, in the order the claims were recorded.
pub open spec fn providers_for(claims: Seq<(Seq<char>, ProviderView)>, key: Seq<char>) -> Seq<
    ProviderView,
>
    decreases claims.len(),
{
    if claims.len() == 0 {
        Seq::empty()
    } else {
        let prev = providers_for(claims.drop_last(), key);
        if claims.last().0 == key {
            prev.push(claims.last().1)
        } else {
            prev
        }
    }
}

/// The keys of the claims, in order.
pub open spec fn keys_of(claims: Seq<(Seq<char>, ProviderView)>) -> Seq<Seq<char>> {
    claims.map_values(|c: (Seq<char>, ProviderView)| c.0)
}

/// Maps each canonical key to the providers that claim it.
pub struct ProviderCatalog {
    claims: Vec<Claim>,
}

impl View for ProviderCatalog {
    type V = Seq<(Seq<char>, ProviderView)>;

    /// The recorded claims, oldest first.
    closed spec fn view(&self) -> Seq<(Seq<char>, ProviderView)> {
        self.claims@.map_values(|c: Claim| (c.key@, c.provider@))
    }
}

impl ProviderCatalog {
    pub fn new() -> (r: ProviderCatalog)
        ensures
            r@ == Seq::<(Seq<char>, ProviderView)>::empty(),
    {
        let r = ProviderCatalog { claims: Vec::new() };
        proof {
            assert(r@ =~= Seq::<(Seq<char>, ProviderView)>::empty());
        }
        r
    }

    /// Records that `provider` owns `key`.
    pub fn record(&mut self, key: String, provider: CloudProvider)
        ensures
            final(self)@ == old(self)@.push((key@, provider@)),
    {
        let ghost k = key@;
        let ghost p = provider@;
        self.claims.push(Claim { key, provider });
        proof {
            assert(final(self)@ =~= old(self)@.push((k, p)));
        }
    }

    /// The providers recorded under `key`; empty when there are none.
    pub fn resolve(&self, key: &String) -> (r: Vec<CloudProvider>)
        ensures
            providers_view(r@) == providers_for(self@, key@),
    {
        let mut r: Vec<CloudProvider> = Vec::new();
        let mut i: usize = 0;
        while i < self.claims.len()
            invariant
                i <= self.claims@.len(),
                providers_view(r@) == providers_for(self@.take(i as int), key@),
            decreases self.claims@.len() - i,
        {
            let c = &self.claims[i];
            proof {
                assert(self@.take(i as int + 1).drop_last() =~= self@.take(i as int));
            }
            proof {
                assert(self@[i as int] == (c.key@, c.provider@));
            }
            if c.key == *key {
                let ghost before = r@;
                let p = c.provider.duplicate();
                r.push(p);
                proof {
                    lemma_providers_view_push(before, p);
                }
            }
            i = i + 1;
        }
        proof {
            assert(self@.take(self@.len() as int) =~= self@);
        }
        r
    }
}

} // verus!
