use vstd::prelude::*;
use crate::feed::RuleDecl;
use crate::provider::{strings_view, copy_strings};

verus! {

/// A provider's rule: the provider name, the rule name and the pattern sources.
pub type RuleView = (Seq<char>, Seq<char>, Seq<Seq<char>>);

/// Whether the regular expression `pattern` compiles (`Some`) and, if so,
/// whether it finds a match in `text`.
pub uninterp spec fn regex_accepts(pattern: Seq<char>, text: Seq<char>) -> Option<bool>;

/// Relies on regex::Regex::new and regex::Regex::is_match: `None` where the
/// pattern does not compile, else whether it matches somewhere in `text`.
#[verifier::external_body]
fn regex_search(pattern: &str, text: &str) -> (r: Option<bool>)
    ensures
        r == regex_accepts(pattern@, text@),
{
    regex::Regex::new(pattern).ok().map(|re| re.is_match(text))
}

/// The pattern wrapped so that it can only match a whole text.
pub open spec fn anchored(pattern: Seq<char>) -> Seq<char> {
    "^(?:"@ + pattern + ")$"@
}

/// Whether `pattern` matches the whole of `text`: `None` where the pattern
/// does not compile on its own.
pub open spec fn full_match_spec(pattern: Seq<char>, text: Seq<char>) -> Option<bool> {
    if regex_accepts(pattern, ""@) is None {
        None
    } else {
        regex_accepts(anchored(pattern), text)
    }
}

/// Whether some pattern that compiles on its own matches the whole of `text`;
/// patterns that do not compile are passed over.
pub open spec fn any_full_match(patterns: Seq<Seq<char>>, text: Seq<char>) -> bool {
    exists|i: int| 0 <= i < patterns.len() && #[trigger] full_match_spec(patterns[i], text) == Some(true)
}

/// Whether `pattern` matches the whole of `text` (`None` where it does not compile).
pub fn full_match(pattern: &String, text: &str) -> (r: Option<bool>)
    ensures
        r == full_match_spec(pattern@, text@),
{
    if regex_search(pattern.as_str(), "").is_none() {
        return None;
    }
    let mut a = String::from_str("^(?:");
    a.append(pattern.as_str());
    a.append(")$");
    regex_search(a.as_str(), text)
}

/// Whether some pattern of the list matches the whole of `text`.
pub fn full_match_any(patterns: &Vec<String>, text: &str) -> (r: bool)
    ensures
        r == any_full_match(strings_view(patterns@), text@),
{
    let ghost pv = strings_view(patterns@);
    let mut i: usize = 0;
    while i < patterns.len()
        invariant
            i <= patterns@.len(),
            pv == strings_view(patterns@),
            forall|j: int| 0 <= j < i ==> #[trigger] full_match_spec(pv[j], text@) != Some(true),
        decreases patterns@.len() - i,
    {
        match full_match(&patterns[i], text) {
            Some(true) => {
                assert(full_match_spec(pv[i as int], text@) == Some(true));
                return true;
            },
            _ => {},
        }
        i = i + 1;
    }
    false
}

/// Why a rule could not be applied.
#[derive(Debug, Clone, Copy, PartialEq, Eq)]
pub enum RuleError {
    /// No provider of that name has any rule.
    UnknownProvider,
    /// The provider has rules, but none of that name.
    UnknownRule,
}

/// Whether some rule is registered for `provider`.
pub open spec fn has_provider(t: Seq<RuleView>, provider: Seq<char>) -> bool {
    exists|i: int| 0 <= i < t.len() && #[trigger] t[i].0 == provider
}

/// The patterns of the first rule named `rule` of `provider`.
pub open spec fn find_rule(t: Seq<RuleView>, provider: Seq<char>, rule: Seq<char>) -> Option<
    Seq<Seq<char>>,
>
    decreases t.len(),
{
    if t.len() == 0 {
        None
    } else if t[0].0 == provider && t[0].1 == rule {
        Some(t[0].2)
    } else {
        find_rule(t.drop_first(), provider, rule)
    }
}

/// What `validate` answers for a rule table.
pub open spec fn validate_spec(t: Seq<RuleView>, provider: Seq<char>, rule: Seq<char>, text: Seq<char>) -> Result<bool, RuleError> {
    if !has_provider(t, provider) {
        Err(RuleError::UnknownProvider)
    } else {
        match find_rule(t, provider, rule) {
            None => Err(RuleError::UnknownRule),
            Some(patterns) => Ok(any_full_match(patterns, text)),
        }
    }
}

struct RuleSet {
    provider: String,
    rule: String,
    patterns: Vec<String>,
}

/// The validation rules of every provider.
pub struct RuleTable {
    sets: Vec<RuleSet>,
}

impl View for RuleTable {
    type V = Seq<RuleView>;

    /// The registered rules, oldest first.
    closed spec fn view(&self) -> Seq<RuleView> {
        self.sets@.map_values(|s: RuleSet| (s.provider@, s.rule@, strings_view(s.patterns@)))
    }
}

impl RuleTable {
    pub fn new() -> (r: RuleTable)
        ensures
            r@ == Seq::<RuleView>::empty(),
    {
        let r = RuleTable { sets: Vec::new() };
        proof {
            assert(r@ =~= Seq::<RuleView>::empty());
        }
        r
    }

    /// Registers the rule `decl` of `provider`.
    pub fn add(&mut self, provider: &String, decl: &RuleDecl)
        ensures
            final(self)@ == old(self)@.push((provider@, decl.rule@, strings_view(decl.patterns@))),
    {
        let s = RuleSet { provider: provider.clone(), rule: decl.rule.clone(), patterns: copy_strings(&decl.patterns) };
        self.sets.push(s);
        proof {
            assert(final(self)@ =~= old(self)@.push((provider@, decl.rule@, strings_view(decl.patterns@))));
        }
    }

    /// Whether `text` is a valid value of kind `rule` for `provider`: some
    /// pattern of the rule matches it in full.
    pub fn validate(&self, provider: &String, rule: &String, text: &str) -> (r: Result<bool, RuleError>)
        ensures
            r == validate_spec(self@, provider@, rule@, text@),
    {
        let ghost t = self@;
        let mut seen = false;
        let mut i: usize = 0;
        proof {
            assert(t.subrange(0, t.len() as int) =~= t);
        }
        while i < self.sets.len()
            invariant
                t == self@,
                i <= t.len(),
                find_rule(t, provider@, rule@) == find_rule(t.subrange(i as int, t.len() as int), provider@, rule@),
                seen == (exists|j: int| 0 <= j < i && #[trigger] t[j].0 == provider@),
            decreases t.len() - i,
        {
            let s = &self.sets[i];
            proof {
                assert(t[i as int] == (s.provider@, s.rule@, strings_view(s.patterns@)));
                assert(t.subrange(i as int, t.len() as int).drop_first() =~= t.subrange(i as int + 1, t.len() as int));
                assert(t.subrange(i as int, t.len() as int)[0] == t[i as int]);
            }
            if s.provider == *provider {
                seen = true;
                if s.rule == *rule {
                    let m = full_match_any(&s.patterns, text);
                    return Ok(m);
                }
            }
            proof {
                if s.provider@ == provider@ {
                    assert(t[i as int].0 == provider@);
                }
            }
            i = i + 1;
        }
        proof {
            assert(t.subrange(t.len() as int, t.len() as int).len() == 0);
        }
        if seen {
            Err(RuleError::UnknownRule)
        } else {
            Err(RuleError::UnknownProvider)
        }
    }
}

} // verus!
