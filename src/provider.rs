use vstd::prelude::*;

verus! {

/// A provider as the feed declares it: a display name and its tags.
#[derive(Debug, Clone)]
pub struct CloudProvider {
    pub name: String,
    pub tags: Vec<String>,
}

/// The mathematical value of a provider.
pub struct ProviderView {
    pub name: Seq<char>,
    pub tags: Seq<Seq<char>>,
}

/// The characters of each string, in order.
pub open spec fn strings_view(v: Seq<String>) -> Seq<Seq<char>> {
    v.map_values(|s: String| s@)
}

impl View for CloudProvider {
    type V = ProviderView;

    open spec fn view(&self) -> ProviderView {
        ProviderView { name: self.name@, tags: strings_view(self.tags@) }
    }
}

/// The views of a sequence of providers.
pub open spec fn providers_view(v: Seq<CloudProvider>) -> Seq<ProviderView> {
    v.map_values(|p: CloudProvider| p@)
}

pub(crate) proof fn lemma_strings_view_push(s: Seq<String>, x: String)
    ensures
        strings_view(s.push(x)) == strings_view(s).push(x@),
{
    assert(strings_view(s.push(x)) =~= strings_view(s).push(x@));
}

pub(crate) proof fn lemma_providers_view_push(s: Seq<CloudProvider>, x: CloudProvider)
    ensures
        providers_view(s.push(x)) == providers_view(s).push(x@),
{
    assert(providers_view(s.push(x)) =~= providers_view(s).push(x@));
}

/// A copy of each string, in order.
pub fn copy_strings(v: &Vec<String>) -> (r: Vec<String>)
    ensures
        strings_view(r@) == strings_view(v@),
{
    let mut r: Vec<String> = Vec::new();
    let mut i: usize = 0;
    while i < v.len()
        invariant
            i <= v@.len(),
            strings_view(r@) == strings_view(v@.take(i as int)),
        decreases v@.len() - i,
    {
        let ghost before = r@;
        r.push(v[i].clone());
        proof {
            assert(v@.take(i as int + 1) == v@.take(i as int).push(v@[i as int]));
            lemma_strings_view_push(before, v@[i as int]);
            lemma_strings_view_push(v@.take(i as int), v@[i as int]);
        }
        i = i + 1;
    }
    proof {
        assert(v@.take(v@.len() as int) == v@);
    }
    r
}

impl CloudProvider {
    pub fn new(name: String, tags: Vec<String>) -> (r: CloudProvider)
        ensures
            r.name == name,
            r.tags == tags,
    {
        CloudProvider { name, tags }
    }

    /// A copy with the same name and tags.
    pub fn duplicate(&self) -> (r: CloudProvider)
        ensures
            r@ == self@,
    {
        CloudProvider { name: self.name.clone(), tags: copy_strings(&self.tags) }
    }
}

/// A copy of each provider, in order.
pub fn copy_providers(v: &Vec<CloudProvider>) -> (r: Vec<CloudProvider>)
    ensures
        providers_view(r@) == providers_view(v@),
{
    let mut r: Vec<CloudProvider> = Vec::new();
    let mut i: usize = 0;
    while i < v.len()
        invariant
            i <= v@.len(),
            providers_view(r@) == providers_view(v@.take(i as int)),
        decreases v@.len() - i,
    {
        let ghost before = r@;
        let p = v[i].duplicate();
        r.push(p);
        proof {
            assert(v@.take(i as int + 1) == v@.take(i as int).push(v@[i as int]));
            lemma_providers_view_push(before, p);
            lemma_providers_view_push(v@.take(i as int), v@[i as int]);
        }
        i = i + 1;
    }
    proof {
        assert(v@.take(v@.len() as int) == v@);
    }
    r
}

} // verus!
