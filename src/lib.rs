//! Attribution of IP addresses and domain names to cloud and hosting providers.
//!
//! The library holds the verified core: the provider records, the catalog that
//! joins canonical keys to providers, the match index over CIDR ranges and
//! domain suffixes, the per-provider validation rules, and the freshness policy
//! that decides when the signature feed must be fetched again.

pub mod provider;
pub mod catalog;
pub mod index;
pub mod feed;
pub mod rules;
pub mod snapshot;
pub mod freshness;
pub mod service;
