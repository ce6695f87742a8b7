use cloudcheck::catalog::ProviderCatalog;
use cloudcheck::feed::{clean_domain, FeedEntry, RuleDecl};
use cloudcheck::freshness::{needs_refresh, next_last_fetch, plan_load, FeedSource, LoadPlan, CACHE_VALID_SECS};
use cloudcheck::index::MatchIndex;
use cloudcheck::provider::CloudProvider;
use cloudcheck::rules::{full_match, RuleError};
use cloudcheck::service::CloudCheck;
use cloudcheck::snapshot::clean_domains;

fn strings(v: &[&str]) -> Vec<String> {
    v.iter().map(|s| s.to_string()).collect()
}

fn entry(name: &str, cidrs: &[&str], domains: &[&str]) -> FeedEntry {
    FeedEntry {
        name: name.to_string(),
        tags: strings(&["cloud"]),
        cidrs: strings(cidrs),
        domains: strings(domains),
        regexes: Vec::new(),
    }
}

fn sample_feed() -> Vec<FeedEntry> {
    let mut amazon = entry("Amazon", &["3.5.140.0/22"], &["amazon.com", "amazonaws.com # storage"]);
    amazon.regexes.push(RuleDecl {
        rule: "STORAGE_BUCKET_NAME".to_string(),
        patterns: strings(&["[a-z0-9][a-z0-9-]{1,61}[a-z0-9]"]),
    });
    vec![
        entry("Google", &["8.8.8.0/24", "2001:4860::/32"], &["google.com", "googleapis.com"]),
        amazon,
    ]
}

fn loaded() -> CloudCheck {
    let mut c = CloudCheck::new();
    c.install(&sample_feed(), FeedSource::Network, 1_000_000);
    c
}

fn names(v: &[CloudProvider]) -> Vec<String> {
    v.iter().map(|p| p.name.clone()).collect()
}

#[test]
fn test_lookup_google_dns() {
    let cloudcheck = loaded();
    let results = cloudcheck.lookup("8.8.8.8");
    let names = names(&results);
    assert!(names.contains(&"Google".to_string()), "Expected Google in results: {:?}", names);
}

#[test]
fn test_lookup_amazon_domain() {
    let cloudcheck = loaded();
    let results = cloudcheck.lookup("asdf.amazon.com");
    let names = names(&results);
    assert!(names.contains(&"Amazon".to_string()), "Expected Amazon in results: {:?}", names);
}

#[test]
fn lookup_google_is_single_provider_with_tags() {
    let c = loaded();
    let r = c.lookup("8.8.8.8");
    assert_eq!(r.len(), 1);
    assert_eq!(r[0].name, "Google");
    assert_eq!(r[0].tags, vec!["cloud".to_string()]);
}

#[test]
fn lookup_unmatched_address_is_empty() {
    let c = loaded();
    assert!(c.lookup("198.51.100.1").is_empty());
}

#[test]
fn lookup_before_install_is_empty() {
    let c = CloudCheck::new();
    assert!(!c.is_ready());
    assert!(c.lookup("8.8.8.8").is_empty());
}

#[test]
fn cidr_range_boundaries() {
    let c = loaded();
    assert_eq!(names(&c.lookup("8.8.8.0")), vec!["Google".to_string()]);
    assert_eq!(names(&c.lookup("8.8.8.255")), vec!["Google".to_string()]);
    assert!(c.lookup("8.8.9.0").is_empty());
    assert!(c.lookup("8.8.7.255").is_empty());
    assert_eq!(names(&c.lookup("2001:4860:4860::8888")), vec!["Google".to_string()]);
}

#[test]
fn domain_suffix_on_label_boundary() {
    let c = loaded();
    assert_eq!(names(&c.lookup("amazonaws.com")), vec!["Amazon".to_string()]);
    assert_eq!(names(&c.lookup("x.amazonaws.com")), vec!["Amazon".to_string()]);
    assert_eq!(names(&c.lookup("evil.amazonaws.com")), vec!["Amazon".to_string()]);
    assert!(c.lookup("notamazonaws.com").is_empty());
    assert!(c.lookup("evil-amazonaws.com").is_empty());
}

#[test]
fn index_domain_keys_match() {
    let mut idx = MatchIndex::new();
    let k = idx.insert("example.com").unwrap().unwrap();
    assert_eq!(k, "example.com");
    assert_eq!(idx.get("x.example.com"), Some(k.clone()));
    assert_eq!(idx.get("example.com"), Some(k));
    assert_eq!(idx.get("evil-example.com"), None);
}

#[test]
fn index_masks_host_bits() {
    let mut idx = MatchIndex::new();
    let k = idx.insert("10.1.2.3/8").unwrap().unwrap();
    assert_eq!(k, "10.0.0.0/8");
    assert_eq!(idx.get("10.200.0.1"), Some("10.0.0.0/8".to_string()));
    assert_eq!(idx.get("11.0.0.0"), None);
}

#[test]
fn index_rejects_garbage() {
    let mut idx = MatchIndex::new();
    assert!(idx.insert("not a host!").is_err());
    assert_eq!(idx.get("not a host!"), None);
}

#[test]
fn longest_match_wins() {
    let feed = vec![entry("Wide", &["10.0.0.0/8"], &[]), entry("Narrow", &["10.0.0.0/16"], &[])];
    let mut c = CloudCheck::new();
    c.install(&feed, FeedSource::Network, 5);
    assert_eq!(names(&c.lookup("10.0.1.1")), vec!["Narrow".to_string()]);
    assert_eq!(names(&c.lookup("10.1.0.1")), vec!["Wide".to_string()]);
}

#[test]
fn shared_prefix_keeps_every_provider() {
    let feed = vec![entry("A", &["192.0.2.0/24"], &[]), entry("B", &["192.0.2.0/24"], &[])];
    let mut c = CloudCheck::new();
    c.install(&feed, FeedSource::Network, 5);
    assert_eq!(names(&c.lookup("192.0.2.7")), vec!["A".to_string(), "B".to_string()]);
}

#[test]
fn bad_entries_do_not_spoil_the_feed() {
    let feed = vec![entry("A", &["999.1.1.1/8", "203.0.113.0/24"], &["bad domain!", "", "  # only a comment", "a.example"])];
    let mut c = CloudCheck::new();
    c.install(&feed, FeedSource::Network, 5);
    assert_eq!(names(&c.lookup("203.0.113.9")), vec!["A".to_string()]);
    assert_eq!(names(&c.lookup("b.a.example")), vec!["A".to_string()]);
}

#[test]
fn catalog_records_in_order() {
    let mut cat = ProviderCatalog::new();
    let k = "k".to_string();
    cat.record(k.clone(), CloudProvider::new("A".to_string(), vec![]));
    cat.record("other".to_string(), CloudProvider::new("B".to_string(), vec![]));
    cat.record(k.clone(), CloudProvider::new("C".to_string(), vec![]));
    assert_eq!(names(&cat.resolve(&k)), vec!["A".to_string(), "C".to_string()]);
    assert!(cat.resolve(&"none".to_string()).is_empty());
}

#[test]
fn domain_lines_are_cleaned() {
    assert_eq!(clean_domain("  amazonaws.com  # storage"), Some("amazonaws.com".to_string()));
    assert_eq!(clean_domain("example.org"), Some("example.org".to_string()));
    assert_eq!(clean_domain("   "), None);
    assert_eq!(clean_domain("# comment"), None);
    assert_eq!(
        clean_domains(&strings(&["a.com", " ", "b.com#x"])),
        vec!["a.com".to_string(), "b.com".to_string()]
    );
}

#[test]
fn validate_bucket_names() {
    let c = loaded();
    let amazon = "Amazon".to_string();
    let bucket = "STORAGE_BUCKET_NAME".to_string();
    assert_eq!(c.validate(&amazon, &bucket, "my-bucket-123"), Ok(true));
    assert_eq!(c.validate(&amazon, &bucket, "AB"), Ok(false));
    assert_eq!(c.validate(&"NoSuchProvider".to_string(), &"X".to_string(), "y"), Err(RuleError::UnknownProvider));
    assert_eq!(c.validate(&amazon, &"NoSuchRule".to_string(), "y"), Err(RuleError::UnknownRule));
}

#[test]
fn full_match_is_anchored() {
    let p = "[a-z]+".to_string();
    assert_eq!(full_match(&p, "abc"), Some(true));
    assert_eq!(full_match(&p, "abc1"), Some(false));
    assert_eq!(full_match(&"(".to_string(), "abc"), None);
}

#[test]
fn malformed_pattern_is_skipped() {
    let mut feed = vec![entry("P", &[], &[])];
    feed[0].regexes.push(RuleDecl { rule: "R".to_string(), patterns: strings(&["(", "x+"]) });
    let mut c = CloudCheck::new();
    c.install(&feed, FeedSource::Cache, 5);
    assert_eq!(c.validate(&"P".to_string(), &"R".to_string(), "xxx"), Ok(true));
    assert_eq!(c.validate(&"P".to_string(), &"R".to_string(), "y"), Ok(false));
}

#[test]
fn refresh_window() {
    assert!(needs_refresh(None, 10));
    assert!(!needs_refresh(Some(100), 100));
    assert!(!needs_refresh(Some(100), 100 + CACHE_VALID_SECS - 1));
    assert!(!needs_refresh(Some(100), 100 + CACHE_VALID_SECS));
    assert!(needs_refresh(Some(100), 100 + CACHE_VALID_SECS + 1));
    assert!(!needs_refresh(Some(200), 100));
}

#[test]
fn plans() {
    assert_eq!(plan_load(false, None, None, 50), LoadPlan::FetchNetwork);
    assert_eq!(plan_load(false, None, Some(40), 50), LoadPlan::ReadCache);
    assert_eq!(plan_load(true, Some(40), None, 50), LoadPlan::Ready);
    assert_eq!(plan_load(true, Some(40), None, 40 + CACHE_VALID_SECS), LoadPlan::Ready);
    assert_eq!(plan_load(true, Some(40), None, 41 + CACHE_VALID_SECS), LoadPlan::FetchNetwork);
    assert_eq!(plan_load(true, Some(90), None, 50), LoadPlan::Ready);
    assert_eq!(next_last_fetch(None, FeedSource::Cache, 7), Some(7));
    assert_eq!(next_last_fetch(Some(3), FeedSource::Cache, 7), Some(3));
    assert_eq!(next_last_fetch(Some(3), FeedSource::Network, 7), Some(7));
    assert_eq!(next_last_fetch(Some(100), FeedSource::Network, 50), Some(100));
}

#[test]
fn second_call_fetches_nothing() {
    let mut c = CloudCheck::new();
    let mut fetches = 0;
    for _ in 0..2 {
        match c.plan(1000, None) {
            LoadPlan::Ready => {}
            LoadPlan::FetchNetwork => {
                fetches += 1;
                c.install(&sample_feed(), FeedSource::Network, 1000);
            }
            LoadPlan::ReadCache => c.install(&sample_feed(), FeedSource::Cache, 1000),
        }
    }
    assert_eq!(fetches, 1);
    assert_eq!(c.last_fetch(), Some(1000));
}

#[test]
fn cache_and_network_give_the_same_answers() {
    let mut a = CloudCheck::new();
    a.install(&sample_feed(), FeedSource::Network, 10);
    let mut b = CloudCheck::new();
    b.install(&sample_feed(), FeedSource::Cache, 10);
    for t in ["8.8.8.8", "asdf.amazon.com", "3.5.141.1", "198.51.100.1", "x.googleapis.com"] {
        assert_eq!(names(&a.lookup(t)), names(&b.lookup(t)));
    }
}

#[test]
fn cache_load_seeds_clock_once() {
    let mut c = CloudCheck::new();
    assert_eq!(c.plan(500, Some(400)), LoadPlan::ReadCache);
    c.install(&sample_feed(), FeedSource::Cache, 500);
    assert_eq!(c.last_fetch(), Some(500));
    c.install(&sample_feed(), FeedSource::Cache, 600);
    assert_eq!(c.last_fetch(), Some(500));
    assert_eq!(c.plan(600, Some(400)), LoadPlan::Ready);
}

#[test]
fn default_engine_is_empty() {
    let c = CloudCheck::default();
    assert!(!c.is_ready());
    assert_eq!(c.last_fetch(), None);
    assert_eq!(c.plan(10, None), LoadPlan::FetchNetwork);
    assert_eq!(
        c.validate(&"Amazon".to_string(), &"STORAGE_BUCKET_NAME".to_string(), "x"),
        Err(RuleError::UnknownProvider)
    );
}

#[test]
fn trailing_dot_is_stripped() {
    assert_eq!(clean_domain("  Amazon.com. # primary "), Some("Amazon.com".to_string()));
    assert_eq!(clean_domain(" . "), None);
    let feed = vec![entry("P", &[], &["  Amazon.com. # primary ", "  # only a comment", ""])];
    let mut c = CloudCheck::new();
    c.install(&feed, FeedSource::Network, 5);
    assert_eq!(names(&c.lookup("asdf.amazon.com")), vec!["P".to_string()]);
}

#[test]
fn pattern_malformed_alone_is_skipped() {
    assert_eq!(full_match(&"a)|(b".to_string(), "a"), None);
    let mut feed = vec![entry("P", &[], &[])];
    feed[0].regexes.push(RuleDecl { rule: "R".to_string(), patterns: strings(&["a)|(b"]) });
    let mut c = CloudCheck::new();
    c.install(&feed, FeedSource::Network, 5);
    assert_eq!(c.validate(&"P".to_string(), &"R".to_string(), "a"), Ok(false));
}

#[test]
fn clock_never_moves_back() {
    let mut c = CloudCheck::new();
    c.install(&sample_feed(), FeedSource::Network, 100);
    c.install(&sample_feed(), FeedSource::Network, 50);
    assert_eq!(c.last_fetch(), Some(100));
    assert_eq!(c.plan(50, None), LoadPlan::Ready);
}

#[test]
fn inserted_value_is_found_by_itself() {
    let mut idx = MatchIndex::new();
    let k = idx.insert("203.0.113.77/24").unwrap().unwrap();
    assert_eq!(k, "203.0.113.0/24");
    assert_eq!(idx.get("203.0.113.77/24"), Some(k));
}
