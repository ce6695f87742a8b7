use vstd::prelude::*;

verus! {

/// A named rule of a provider: regular expressions that a valid value of
/// that kind matches in full.
pub struct RuleDecl {
    pub rule: String,
    pub patterns: Vec<String>,
}

/// One provider record of the signature feed.
pub struct FeedEntry {
    pub name: String,
    pub tags: Vec<String>,
    pub cidrs: Vec<String>,
    pub domains: Vec<String>,
    pub regexes: Vec<RuleDecl>,
}

/// The text before the first `#`; all of it where there is none.
pub open spec fn before_comment(s: Seq<char>) -> Seq<char>
    decreases s.len(),
{
    if s.len() == 0 {
        s
    } else if s[0] == '#' {
        Seq::empty()
    } else {
        seq![s[0]] + before_comment(s.drop_first())
    }
}

/// What `str::trim` leaves of a string: leading and trailing Unicode white
/// space removed.
pub uninterp spec fn trimmed(s: Seq<char>) -> Seq<char>;

/// The text without one trailing dot, where it ends with one.
pub open spec fn without_final_dot(s: Seq<char>) -> Seq<char> {
    if s.len() > 0 && s.last() == '.' {
        s.drop_last()
    } else {
        s
    }
}

/// A feed domain line with its comment, surrounding white space and trailing
/// dot removed.
pub open spec fn cleaned_domain(raw: Seq<char>) -> Seq<char> {
    without_final_dot(trimmed(before_comment(raw)))
}

/// Relies on str::split: its first piece is the text before the first
/// separator, or the whole text where there is none.
#[verifier::external_body]
fn text_before_hash(s: &str) -> (r: &str)
    ensures
        r@ == before_comment(s@),
{
    s.split('#').next().unwrap_or(s)
}

/// Relies on str::trim: leading and trailing white space removed.
#[verifier::external_body]
fn trim_white_space(s: &str) -> (r: &str)
    ensures
        r@ == trimmed(s@),
{
    s.trim()
}

/// Relies on str::strip_suffix: the text before the suffix where the text
/// ends with it, else `None`.
#[verifier::external_body]
fn strip_final_dot(s: &str) -> (r: Option<&str>)
    ensures
        match r {
            Some(t) => s@.len() > 0 && s@.last() == '.' && t@ == s@.drop_last(),
            None => !(s@.len() > 0 && s@.last() == '.'),
        },
{
    s.strip_suffix('.')
}

/// The domain that a feed line declares, or `None` where nothing is left of
/// the line once its comment, surrounding white space and trailing dot are
/// removed.
pub fn clean_domain(raw: &str) -> (r: Option<String>)
    ensures
        match r {
            Some(d) => d@ == cleaned_domain(raw@) && d@.len() > 0,
            None => cleaned_domain(raw@).len() == 0,
        },
{
    let t = trim_white_space(text_before_hash(raw));
    let t = match strip_final_dot(t) {
        Some(u) => u,
        None => t,
    };
    if t.is_empty() {
        None
    } else {
        Some(t.to_owned())
    }
}

} // verus!
