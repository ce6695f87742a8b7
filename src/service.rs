use vstd::prelude::*;
use crate::catalog::{providers_for, keys_of};
use crate::index::radix_match;
use crate::feed::FeedEntry;
use crate::freshness::{FeedSource, LoadPlan, plan_load, next_last_fetch, plan_spec, freshness_base, after_load};
use crate::provider::{CloudProvider, ProviderView, providers_view};
use crate::rules::{RuleError, RuleView, validate_spec};
use crate::snapshot::{Snapshot, feed_claims, feed_rules};

verus! {

/// The attribution engine: the signatures in memory and when they were last
/// fetched. The caller performs the I/O that `plan` asks for and hands the
/// decoded feed to `install`.
pub struct CloudCheck {
    snapshot: Snapshot,
    loaded: bool,
    last_fetch: Option<u64>,
}

/// Two engines whose last install was of the same feed answer every lookup
/// alike, whichever source each feed was loaded from.
pub proof fn lemma_same_feed_same_answers(a: CloudCheck, b: CloudCheck, feed: Seq<FeedEntry>, target: Seq<char>)
    requires
        a.index_keys() == keys_of(feed_claims(feed)),
        a.claims() == feed_claims(feed),
        b.index_keys() == keys_of(feed_claims(feed)),
        b.claims() == feed_claims(feed),
    ensures
        a.match_of(target) == b.match_of(target),
        lookup_result(a.claims(), a.match_of(target)) == lookup_result(b.claims(), b.match_of(target)),
{
}

/// What a lookup returns for a key found in the index, or for none.
pub open spec fn lookup_result(claims: Seq<(Seq<char>, ProviderView)>, key: Option<Seq<char>>) -> Seq<
    ProviderView,
> {
    match key {
        Some(k) => providers_for(claims, k),
        None => Seq::empty(),
    }
}

impl Default for CloudCheck {
    fn default() -> (r: CloudCheck)
        ensures
            r.wf(),
            !r.is_loaded(),
            r.last_fetch_spec() is None,
            r.index_keys() == Seq::<Seq<char>>::empty(),
            r.claims() == Seq::<(Seq<char>, ProviderView)>::empty(),
            r.rules() == Seq::<RuleView>::empty(),
    {
        CloudCheck::new()
    }
}

impl CloudCheck {
    /// Whether a feed has been installed.
    pub closed spec fn is_loaded(&self) -> bool {
        self.loaded
    }

    /// When the signatures were last fetched, in seconds.
    pub closed spec fn last_fetch_spec(&self) -> Option<u64> {
        self.last_fetch
    }

    /// The catalog's claims.
    pub closed spec fn claims(&self) -> Seq<(Seq<char>, ProviderView)> {
        self.snapshot.catalog@
    }

    /// The validation rules.
    pub closed spec fn rules(&self) -> Seq<RuleView> {
        self.snapshot.rules@
    }

    /// The canonical keys in the index, in the order they were inserted.
    pub closed spec fn index_keys(&self) -> Seq<Seq<char>> {
        self.snapshot.index.keys()
    }

    /// The canonical key of the most specific indexed entry covering `target`.
    pub open spec fn match_of(&self, target: Seq<char>) -> Option<Seq<char>> {
        radix_match(self.index_keys(), target)
    }

    /// The index holds exactly the keys that the catalog's claims name.
    pub closed spec fn wf(&self) -> bool {
        &&& self.snapshot.index.indexes_all()
        &&& self.snapshot.index.keys() == keys_of(self.snapshot.catalog@)
    }

    pub fn new() -> (r: CloudCheck)
        ensures
            r.wf(),
            !r.is_loaded(),
            r.last_fetch_spec() is None,
            r.index_keys() == Seq::<Seq<char>>::empty(),
            r.claims() == Seq::<(Seq<char>, ProviderView)>::empty(),
            r.rules() == Seq::<RuleView>::empty(),
    {
        let r = CloudCheck { snapshot: Snapshot::new(), loaded: false, last_fetch: None };
        proof {
            assert(keys_of(r.snapshot.catalog@) =~= Seq::<Seq<char>>::empty());
        }
        r
    }

    pub fn is_ready(&self) -> (r: bool)
        ensures
            r == self.is_loaded(),
    {
        self.loaded
    }

    pub fn last_fetch(&self) -> (r: Option<u64>)
        ensures
            r == self.last_fetch_spec(),
    {
        self.last_fetch
    }

    /// What a call at `now` must do first, given the cache file's
    /// modification time where it has one.
    pub fn plan(&self, now: u64, cache_mtime: Option<u64>) -> (r: LoadPlan)
        ensures
            r == plan_spec(self.is_loaded(), freshness_base(self.last_fetch_spec(), cache_mtime), now),
    {
        plan_load(self.loaded, self.last_fetch, cache_mtime, now)
    }

    /// Replaces the signatures with those built from `feed`, loaded at `now`
    /// from `source`. The index, catalog and rules are replaced together.
    pub fn install(&mut self, feed: &Vec<FeedEntry>, source: FeedSource, now: u64)
        ensures
            final(self).wf(),
            final(self).is_loaded(),
            final(self).index_keys() == keys_of(feed_claims(feed@)),
            final(self).claims() == feed_claims(feed@),
            final(self).rules() == feed_rules(feed@),
            final(self).last_fetch_spec() == after_load(old(self).last_fetch_spec(), source, now),
    {
        let s = Snapshot::build(feed);
        self.snapshot = s;
        self.loaded = true;
        self.last_fetch = next_last_fetch(self.last_fetch, source, now);
    }

    /// The providers that claim the most specific entry covering `target`;
    /// empty where none covers it.
    pub fn lookup(&self, target: &str) -> (r: Vec<CloudProvider>)
        requires
            self.wf(),
        ensures
            providers_view(r@) == lookup_result(self.claims(), self.match_of(target@)),
    {
        match self.snapshot.index.get(target) {
            Some(k) => self.snapshot.catalog.resolve(&k),
            None => {
                let r: Vec<CloudProvider> = Vec::new();
                proof {
                    assert(providers_view(r@) =~= Seq::<ProviderView>::empty());
                }
                r
            },
        }
    }

    /// Whether `text` is a valid value of kind `rule` for `provider`.
    pub fn validate(&self, provider: &String, rule: &String, text: &str) -> (r: Result<bool, RuleError>)
        ensures
            r == validate_spec(self.rules(), provider@, rule@, text@),
    {
        self.snapshot.rules.validate(provider, rule, text)
    }
}

} // verus!
