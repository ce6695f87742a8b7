use vstd::prelude::*;
use radixtarget::RadixTarget;

verus! {

#[verifier::external_type_specification]
#[verifier::external_body]
pub struct ExRadixTarget(RadixTarget);

/// The canonical key that radixtarget gives a CIDR, an address or a domain
/// name (the network with host bits masked, or the normalised host name), or
/// `None` where it rejects the value.
pub uninterp spec fn radix_canonical(value: Seq<char>) -> Option<Seq<char>>;

/// The canonical keys that inserts have stored in the tree, in order.
pub uninterp spec fn radix_history(tree: RadixTarget) -> Seq<Seq<char>>;

/// Whether the tree was made in normal scope mode (neither strict nor
/// access-list).
pub uninterp spec fn radix_normal(tree: RadixTarget) -> bool;

/// What `get` answers for `target` on a normal-mode tree that was made empty
/// and then given the canonical keys `history`, in that order: the canonical
/// key of the most specific entry that covers the target, or `None`.
pub uninterp spec fn radix_match(history: Seq<Seq<char>>, target: Seq<char>) -> Option<Seq<char>>;

/// Relies on radixtarget::RadixTarget::new: with no initial hosts it cannot
/// fail and the tree starts empty, here in normal scope mode.
#[verifier::external_body]
fn new_radix_target() -> (r: Result<RadixTarget, String>)
    ensures
        r is Ok,
        r matches Ok(t) ==> radix_normal(t),
        r matches Ok(t) ==> radix_history(t) == Seq::<Seq<char>>::empty(),
{
    RadixTarget::new(&[], radixtarget::ScopeMode::Normal)
}

/// Relies on radixtarget::RadixTarget::insert: the value is canonicalised (an
/// error where it cannot be) and the canonical key stored, so that a lookup of
/// the value finds it; outside access-list mode the key is always returned.
#[verifier::external_body]
fn radix_insert(tree: &mut RadixTarget, value: &str) -> (r: Result<Option<String>, String>)
    ensures
        radix_normal(*final(tree)) == radix_normal(*old(tree)),
        match r {
            Ok(Some(k)) => radix_canonical(value@) == Some(k@) && radix_history(*final(tree))
                == radix_history(*old(tree)).push(k@) && (radix_normal(*old(tree)) ==> radix_match(
                radix_history(*final(tree)),
                value@,
            ) == Some(k@)),
            Ok(None) => radix_canonical(value@) is Some && !radix_normal(*old(tree)) && radix_history(
                *final(tree),
            ) == radix_history(*old(tree)),
            Err(_) => radix_canonical(value@) is None && radix_history(*final(tree)) == radix_history(
                *old(tree),
            ),
        },
{
    tree.insert(value)
}

/// Relies on radixtarget::RadixTarget::get: the most specific match, which on
/// a normal-mode tree depends on the keys stored and the target alone.
#[verifier::external_body]
fn radix_get(tree: &RadixTarget, target: &str) -> (r: Option<String>)
    ensures
        radix_normal(*tree) ==> match r {
            Some(k) => radix_match(radix_history(*tree), target@) == Some(k@),
            None => radix_match(radix_history(*tree), target@) is None,
        },
{
    tree.get(target)
}

/// Why a value could not be indexed.
#[derive(Debug, PartialEq, Eq)]
pub enum IndexError {
    /// The value is neither a network, an address nor a valid host name.
    Unparsable(String),
}

/// Longest-match lookup over CIDR ranges and domain suffixes.
pub struct MatchIndex {
    tree: RadixTarget,
}

impl MatchIndex {
    /// Whether every value that parses is indexed under its canonical key.
    pub closed spec fn indexes_all(&self) -> bool {
        radix_normal(self.tree)
    }

    /// The canonical keys inserted, in order.
    pub closed spec fn keys(&self) -> Seq<Seq<char>> {
        radix_history(self.tree)
    }

    /// The canonical key of the most specific entry covering `target`.
    pub open spec fn lookup_spec(&self, target: Seq<char>) -> Option<Seq<char>> {
        radix_match(self.keys(), target)
    }

    pub fn new() -> (r: MatchIndex)
        ensures
            r.indexes_all(),
            r.keys() == Seq::<Seq<char>>::empty(),
    {
        MatchIndex { tree: new_radix_target().unwrap() }
    }

    /// Indexes a CIDR, an address or a domain name; returns its canonical key.
    pub fn insert(&mut self, value: &str) -> (r: Result<Option<String>, IndexError>)
        requires
            old(self).indexes_all(),
        ensures
            final(self).indexes_all(),
            match r {
                Ok(Some(k)) => radix_canonical(value@) == Some(k@) && final(self).keys() == old(
                    self,
                ).keys().push(k@) && final(self).lookup_spec(value@) == Some(k@),
                Ok(None) => false,
                Err(_) => radix_canonical(value@) is None && final(self).keys() == old(self).keys(),
            },
    {
        match radix_insert(&mut self.tree, value) {
            Ok(k) => Ok(k),
            Err(e) => Err(IndexError::Unparsable(e)),
        }
    }

    /// The canonical key of the most specific entry covering `target`, if any.
    pub fn get(&self, target: &str) -> (r: Option<String>)
        requires
            self.indexes_all(),
        ensures
            match r {
                Some(k) => self.lookup_spec(target@) == Some(k@),
                None => self.lookup_spec(target@) is None,
            },
    {
        radix_get(&self.tree, target)
    }
}

} // verus!
