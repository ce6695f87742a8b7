use vstd::prelude::*;
use crate::catalog::{ProviderCatalog, providers_for, keys_of};
use crate::feed::{FeedEntry, RuleDecl, clean_domain, cleaned_domain};
use crate::index::{MatchIndex, radix_canonical};
use crate::provider::{CloudProvider, ProviderView, strings_view, copy_strings, lemma_strings_view_push};
use crate::rules::{RuleTable, RuleView};

verus! {

/// The claims that indexing `values` in order makes for provider `p`: one for
/// each value that has a canonical key; values that do not parse are skipped.
pub open spec fn claims_of(values: Seq<Seq<char>>, p: ProviderView) -> Seq<(Seq<char>, ProviderView)>
    decreases values.len(),
{
    if values.len() == 0 {
        Seq::empty()
    } else {
        let prev = claims_of(values.drop_last(), p);
        match radix_canonical(values.last()) {
            Some(k) => prev.push((k, p)),
            None => prev,
        }
    }
}

/// The domains that feed lines declare, cleaned, with empty ones left out.
pub open spec fn domain_lines(lines: Seq<Seq<char>>) -> Seq<Seq<char>>
    decreases lines.len(),
{
    if lines.len() == 0 {
        Seq::empty()
    } else {
        let prev = domain_lines(lines.drop_last());
        let d = cleaned_domain(lines.last());
        if d.len() > 0 {
            prev.push(d)
        } else {
            prev
        }
    }
}

/// The provider that a feed entry declares.
pub open spec fn entry_provider(e: FeedEntry) -> ProviderView {
    ProviderView { name: e.name@, tags: strings_view(e.tags@) }
}

/// The claims of one feed entry: its CIDRs, then its domains.
pub open spec fn entry_claims(e: FeedEntry) -> Seq<(Seq<char>, ProviderView)> {
    claims_of(strings_view(e.cidrs@), entry_provider(e)) + claims_of(
        domain_lines(strings_view(e.domains@)),
        entry_provider(e),
    )
}

/// A rule declaration of provider `name`.
pub open spec fn rule_of(name: Seq<char>, d: RuleDecl) -> RuleView {
    (name, d.rule@, strings_view(d.patterns@))
}

/// The rules of one feed entry.
pub open spec fn entry_rules(e: FeedEntry) -> Seq<RuleView> {
    e.regexes@.map_values(|d: RuleDecl| rule_of(e.name@, d))
}

/// The claims of a whole feed, entry by entry.
pub open spec fn feed_claims(feed: Seq<FeedEntry>) -> Seq<(Seq<char>, ProviderView)>
    decreases feed.len(),
{
    if feed.len() == 0 {
        Seq::empty()
    } else {
        feed_claims(feed.drop_last()) + entry_claims(feed.last())
    }
}

/// The rules of a whole feed, entry by entry.
pub open spec fn feed_rules(feed: Seq<FeedEntry>) -> Seq<RuleView>
    decreases feed.len(),
{
    if feed.len() == 0 {
        Seq::empty()
    } else {
        feed_rules(feed.drop_last()) + entry_rules(feed.last())
    }
}

/// The cleaned, non-empty domains of the feed lines, in order.
pub fn clean_domains(lines: &Vec<String>) -> (r: Vec<String>)
    ensures
        strings_view(r@) == domain_lines(strings_view(lines@)),
{
    let mut r: Vec<String> = Vec::new();
    let mut i: usize = 0;
    while i < lines.len()
        invariant
            i <= lines@.len(),
            strings_view(r@) == domain_lines(strings_view(lines@.take(i as int))),
        decreases lines@.len() - i,
    {
        let ghost before = r@;
        proof {
            assert(lines@.take(i as int + 1) == lines@.take(i as int).push(lines@[i as int]));
            lemma_strings_view_push(lines@.take(i as int), lines@[i as int]);
            assert(strings_view(lines@.take(i as int + 1)).drop_last() =~= strings_view(lines@.take(i as int)));
        }
        match clean_domain(lines[i].as_str()) {
            Some(d) => {
                r.push(d);
                proof {
                    lemma_strings_view_push(before, d);
                }
            },
            None => {},
        }
        i = i + 1;
    }
    proof {
        assert(lines@.take(lines@.len() as int) == lines@);
    }
    r
}

/// Indexes each value and records each resulting key against `provider`.
fn claim_all(
    index: &mut MatchIndex,
    catalog: &mut ProviderCatalog,
    values: &Vec<String>,
    provider: &CloudProvider,
)
    requires
        old(index).indexes_all(),
        old(index).keys() == keys_of(old(catalog)@),
    ensures
        final(index).indexes_all(),
        final(index).keys() == keys_of(final(catalog)@),
        final(catalog)@ == old(catalog)@ + claims_of(strings_view(values@), provider@),
{
    let ghost base = catalog@;
    let mut j: usize = 0;
    proof {
        assert(strings_view(values@.take(0)) =~= Seq::<Seq<char>>::empty());
        assert(catalog@ =~= base + claims_of(strings_view(values@.take(0)), provider@));
    }
    while j < values.len()
        invariant
            j <= values@.len(),
            index.indexes_all(),
            index.keys() == keys_of(catalog@),
            catalog@ == base + claims_of(strings_view(values@.take(j as int)), provider@),
        decreases values@.len() - j,
    {
        let ghost sv = strings_view(values@.take(j as int + 1));
        proof {
            assert(values@.take(j as int + 1) == values@.take(j as int).push(values@[j as int]));
            lemma_strings_view_push(values@.take(j as int), values@[j as int]);
            assert(sv.drop_last() =~= strings_view(values@.take(j as int)));
            assert(sv.last() == values@[j as int]@);
        }
        match index.insert(values[j].as_str()) {
            Ok(Some(k)) => {
                let ghost before = catalog@;
                let ghost kv = k@;
                catalog.record(k, provider.duplicate());
                proof {
                    assert(keys_of(catalog@) =~= keys_of(before).push(kv));
                    assert(catalog@ =~= base + claims_of(sv, provider@));
                }
            },
            Ok(None) => {},
            Err(_) => {},
        }
        j = j + 1;
    }
    proof {
        assert(values@.take(values@.len() as int) == values@);
    }
}

proof fn lemma_single_cidr_claims(e: FeedEntry, k: Seq<char>)
    requires
        e.cidrs@.len() == 1,
        e.domains@.len() == 0,
        radix_canonical(e.cidrs@[0]@) == Some(k),
    ensures
        entry_claims(e) == seq![(k, entry_provider(e))],
{
    let cv = strings_view(e.cidrs@);
    assert(cv.drop_last() =~= Seq::<Seq<char>>::empty());
    assert(cv.last() == e.cidrs@[0]@);
    assert(claims_of(cv.drop_last(), entry_provider(e)) == Seq::<(Seq<char>, ProviderView)>::empty());
    assert(claims_of(cv, entry_provider(e)) =~= seq![(k, entry_provider(e))]);
    assert(strings_view(e.domains@) =~= Seq::<Seq<char>>::empty());
    assert(domain_lines(strings_view(e.domains@)) == Seq::<Seq<char>>::empty());
    assert(claims_of(Seq::<Seq<char>>::empty(), entry_provider(e)) == Seq::<(Seq<char>, ProviderView)>::empty());
    assert(entry_claims(e) =~= seq![(k, entry_provider(e))]);
}

/// A provider's claims are recorded under the canonical key of its own value,
/// not under that of another entry that covers it: where two entries each
/// declare one CIDR and no domain, and the two canonical keys differ, each key
/// resolves to its own entry's provider alone.
pub proof fn lemma_claims_keyed_by_own_value(feed: Seq<FeedEntry>, ka: Seq<char>, kb: Seq<char>)
    requires
        feed.len() == 2,
        feed[0].cidrs@.len() == 1,
        feed[1].cidrs@.len() == 1,
        feed[0].domains@.len() == 0,
        feed[1].domains@.len() == 0,
        radix_canonical(feed[0].cidrs@[0]@) == Some(ka),
        radix_canonical(feed[1].cidrs@[0]@) == Some(kb),
        ka != kb,
    ensures
        providers_for(feed_claims(feed), ka) == seq![entry_provider(feed[0])],
        providers_for(feed_claims(feed), kb) == seq![entry_provider(feed[1])],
{
    let pa = entry_provider(feed[0]);
    let pb = entry_provider(feed[1]);
    lemma_single_cidr_claims(feed[0], ka);
    lemma_single_cidr_claims(feed[1], kb);
    assert(entry_claims(feed[0]) == seq![(ka, pa)]);
    assert(entry_claims(feed[1]) == seq![(kb, pb)]);
    let f1 = feed.drop_last();
    assert(f1.drop_last() =~= Seq::<FeedEntry>::empty());
    assert(f1.last() == feed[0]);
    assert(feed_claims(f1.drop_last()) == Seq::<(Seq<char>, ProviderView)>::empty());
    assert(feed_claims(f1) =~= seq![(ka, pa)]);
    assert(feed.last() == feed[1]);
    let all = feed_claims(feed);
    assert(all =~= seq![(ka, pa), (kb, pb)]);
    let one = seq![(ka, pa)];
    assert(all.drop_last() =~= one);
    assert(one.drop_last() =~= Seq::<(Seq<char>, ProviderView)>::empty());
    assert(providers_for(one.drop_last(), ka) == Seq::<ProviderView>::empty());
    assert(providers_for(one.drop_last(), kb) == Seq::<ProviderView>::empty());
    assert(providers_for(one, ka) =~= seq![pa]);
    assert(providers_for(one, kb) =~= Seq::<ProviderView>::empty());
    assert(providers_for(all, ka) =~= seq![pa]);
    assert(providers_for(all, kb) =~= seq![pb]);
}

proof fn lemma_claims_of_contains(values: Seq<Seq<char>>, p: ProviderView, j: int, k: Seq<char>)
    requires
        0 <= j < values.len(),
        radix_canonical(values[j]) == Some(k),
    ensures
        claims_of(values, p).contains((k, p)),
    decreases values.len(),
{
    let prev = claims_of(values.drop_last(), p);
    if j == values.len() - 1 {
        assert(claims_of(values, p) == prev.push((k, p)));
        assert(prev.push((k, p))[prev.len() as int] == (k, p));
    } else {
        assert(values.drop_last()[j] == values[j]);
        lemma_claims_of_contains(values.drop_last(), p, j, k);
        let w = choose|x: int| 0 <= x < prev.len() && prev[x] == (k, p);
        match radix_canonical(values.last()) {
            Some(k2) => {
                assert(prev.push((k2, p))[w] == (k, p));
            },
            None => {},
        }
    }
}

proof fn lemma_feed_claims_contains(feed: Seq<FeedEntry>, i: int, c: (Seq<char>, ProviderView))
    requires
        0 <= i < feed.len(),
        entry_claims(feed[i]).contains(c),
    ensures
        feed_claims(feed).contains(c),
    decreases feed.len(),
{
    let prev = feed_claims(feed.drop_last());
    let last = entry_claims(feed.last());
    assert(feed_claims(feed) == prev + last);
    if i == feed.len() - 1 {
        let w = choose|x: int| 0 <= x < last.len() && last[x] == c;
        assert((prev + last)[prev.len() + w] == c);
    } else {
        assert(feed.drop_last()[i] == feed[i]);
        lemma_feed_claims_contains(feed.drop_last(), i, c);
        let w = choose|x: int| 0 <= x < prev.len() && prev[x] == c;
        assert((prev + last)[w] == c);
    }
}

proof fn lemma_providers_for_contains(claims: Seq<(Seq<char>, ProviderView)>, c: (Seq<char>, ProviderView))
    requires
        claims.contains(c),
    ensures
        providers_for(claims, c.0).contains(c.1),
    decreases claims.len(),
{
    let prev = providers_for(claims.drop_last(), c.0);
    if claims.last() == c {
        assert(providers_for(claims, c.0) == prev.push(c.1));
        assert(prev.push(c.1)[prev.len() as int] == c.1);
    } else {
        let w = choose|x: int| 0 <= x < claims.len() && claims[x] == c;
        assert(w < claims.len() - 1);
        assert(claims.drop_last()[w] == c);
        lemma_providers_for_contains(claims.drop_last(), c);
        let v = choose|x: int| 0 <= x < prev.len() && prev[x] == c.1;
        if claims.last().0 == c.0 {
            assert(prev.push(claims.last().1)[v] == c.1);
        }
    }
}

/// Every CIDR of a feed entry that radixtarget accepts is claimed for that
/// entry's provider: once built, the catalog resolves the CIDR's canonical key
/// to a list that holds the provider.
pub proof fn lemma_cidr_claim_recorded(feed: Seq<FeedEntry>, i: int, j: int, k: Seq<char>)
    requires
        0 <= i < feed.len(),
        0 <= j < feed[i].cidrs@.len(),
        radix_canonical(feed[i].cidrs@[j]@) == Some(k),
    ensures
        providers_for(feed_claims(feed), k).contains(entry_provider(feed[i])),
{
    let e = feed[i];
    let p = entry_provider(e);
    let cv = strings_view(e.cidrs@);
    assert(cv[j] == e.cidrs@[j]@);
    lemma_claims_of_contains(cv, p, j, k);
    let a = claims_of(cv, p);
    let b = claims_of(domain_lines(strings_view(e.domains@)), p);
    let w = choose|x: int| 0 <= x < a.len() && a[x] == (k, p);
    assert(entry_claims(e) == a + b);
    assert((a + b)[w] == (k, p));
    lemma_feed_claims_contains(feed, i, (k, p));
    lemma_providers_for_contains(feed_claims(feed), (k, p));
}

/// The index, catalog and rules built from one feed, published together.
pub struct Snapshot {
    pub index: MatchIndex,
    pub catalog: ProviderCatalog,
    pub rules: RuleTable,
}

impl Snapshot {
    /// An empty snapshot.
    pub fn new() -> (r: Snapshot)
        ensures
            r.index.indexes_all(),
            r.index.keys() == Seq::<Seq<char>>::empty(),
            r.catalog@ == Seq::<(Seq<char>, ProviderView)>::empty(),
            r.rules@ == Seq::<RuleView>::empty(),
    {
        let r = Snapshot { index: MatchIndex::new(), catalog: ProviderCatalog::new(), rules: RuleTable::new() };
        proof {
            assert(keys_of(r.catalog@) =~= Seq::<Seq<char>>::empty());
        }
        r
    }

    /// Builds the index, catalog and rules from the feed's entries: every CIDR
    /// and every cleaned domain is indexed and its canonical key recorded
    /// against its provider; entries that do not parse are skipped.
    pub fn build(feed: &Vec<FeedEntry>) -> (r: Snapshot)
        ensures
            r.index.indexes_all(),
            r.index.keys() == keys_of(feed_claims(feed@)),
            r.catalog@ == feed_claims(feed@),
            r.rules@ == feed_rules(feed@),
    {
        let mut s = Snapshot::new();
        let mut i: usize = 0;
        proof {
            assert(feed@.take(0) =~= Seq::<FeedEntry>::empty());
        }
        while i < feed.len()
            invariant
                i <= feed@.len(),
                s.index.indexes_all(),
                s.index.keys() == keys_of(s.catalog@),
                s.catalog@ == feed_claims(feed@.take(i as int)),
                s.rules@ == feed_rules(feed@.take(i as int)),
            decreases feed@.len() - i,
        {
            let e = &feed[i];
            proof {
                assert(feed@.take(i as int + 1).drop_last() =~= feed@.take(i as int));
                assert(feed@.take(i as int + 1).last() == feed@[i as int]);
            }
            let p = CloudProvider::new(e.name.clone(), copy_strings(&e.tags));
            assert(p@ == entry_provider(*e));
            claim_all(&mut s.index, &mut s.catalog, &e.cidrs, &p);
            let domains = clean_domains(&e.domains);
            claim_all(&mut s.index, &mut s.catalog, &domains, &p);
            proof {
                assert(s.catalog@ =~= feed_claims(feed@.take(i as int + 1)));
            }
            let ghost rbase = s.rules@;
            let mut k: usize = 0;
            while k < e.regexes.len()
                invariant
                    k <= e.regexes@.len(),
                    i < feed@.len(),
                    s.index.indexes_all(),
                    s.index.keys() == keys_of(s.catalog@),
                    s.catalog@ == feed_claims(feed@.take(i as int + 1)),
                    s.rules@ == rbase + e.regexes@.take(k as int).map_values(|d: RuleDecl| rule_of(e.name@, d)),
                decreases e.regexes@.len() - k,
            {
                s.rules.add(&e.name, &e.regexes[k]);
                proof {
                    assert(e.regexes@.take(k as int + 1).map_values(|d: RuleDecl| rule_of(e.name@, d))
                        =~= e.regexes@.take(k as int).map_values(|d: RuleDecl| rule_of(e.name@, d)).push(rule_of(e.name@, e.regexes@[k as int])));
                    assert(s.rules@ =~= rbase + e.regexes@.take(k as int + 1).map_values(|d: RuleDecl| rule_of(e.name@, d)));
                }
                k = k + 1;
            }
            proof {
                assert(e.regexes@.take(e.regexes@.len() as int) == e.regexes@);
                assert(s.rules@ =~= feed_rules(feed@.take(i as int + 1)));
            }
            i = i + 1;
        }
        proof {
            assert(feed@.take(feed@.len() as int) == feed@);
        }
        s
    }
}

} // verus!
